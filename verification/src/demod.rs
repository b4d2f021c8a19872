use vstd::prelude::*;

use crate::bits::{
    f32_cmp, f32_lt, f32_min, f32_neg, CMP_EQ, F32_AGC_ATTACK, F32_AGC_RELEASE, F32_AGC_TARGET,
    F32_CARRIER_ALPHA, F32_CARRIER_MIN, F32_MAX_GAIN, F32_OUTPUT_CLIP, F32_TWO_PI, F32_ZERO,
};
use crate::cpx::{f32_hypot, Cx};
use crate::fmath::{
    add32, cos32, div32, f32_add, f32_clamp, f32_cos, f32_div, f32_mul, f32_sin, f32_sub, ge32,
    gt32, lt32, min32_nz, mul32, neg32, sin32, sub32,
};

verus! {

// The numerically controlled oscillator that shifts the tuned-in band to
// baseband, and the AM envelope demodulator with its carrier tracker and
// automatic gain control.

/// A complex oscillator: a phase and the per-sample phase increment, both
/// encoded single-precision values.
pub struct Nco {
    /// Current phase in radians.
    pub phase: u32,
    /// Phase advance per sample: 2 pi freq / sample_rate.
    pub phase_inc: u32,
}

/// The phase increment an oscillator is built with.
pub open spec fn nco_inc(freq_hz: u32, sample_rate: u32) -> u32 {
    f32_div(f32_mul(F32_TWO_PI, freq_hz), sample_rate)
}

/// The oscillator value at the current phase: (cos phase, sin phase).
pub open spec fn nco_val(st: Nco) -> Cx {
    Cx { re: f32_cos(st.phase), im: f32_sin(st.phase) }
}

/// The phase after one step: advanced by the increment, then wrapped back
/// into [0, 2 pi) by one corrective step.
pub open spec fn nco_next_phase(st: Nco) -> u32 {
    let p = f32_add(st.phase, st.phase_inc);
    if f32_lt(F32_TWO_PI, p) || f32_cmp(p, F32_TWO_PI) == CMP_EQ {
        f32_sub(p, F32_TWO_PI)
    } else if f32_lt(p, F32_ZERO) {
        f32_add(p, F32_TWO_PI)
    } else {
        p
    }
}

impl Nco {
    /// A fresh oscillator at phase zero. A negative frequency shifts
    /// downward.
    pub fn new(freq_hz: u32, sample_rate: u32) -> (s: Nco)
        ensures
            s == (Nco { phase: F32_ZERO, phase_inc: nco_inc(freq_hz, sample_rate) }),
    {
        let phase_inc = div32(mul32(F32_TWO_PI, freq_hz), sample_rate);
        Nco { phase: F32_ZERO, phase_inc }
    }

    /// Return the oscillator value at the current phase, then advance and
    /// wrap the phase.
    pub fn step(&mut self) -> (val: Cx)
        ensures
            val == nco_val(*old(self)),
            *final(self) == (Nco { phase: nco_next_phase(*old(self)), phase_inc: old(self).phase_inc }),
    {
        let val = Cx { re: cos32(self.phase), im: sin32(self.phase) };
        let p = add32(self.phase, self.phase_inc);
        self.phase = if ge32(p, F32_TWO_PI) {
            sub32(p, F32_TWO_PI)
        } else if lt32(p, F32_ZERO) {
            add32(p, F32_TWO_PI)
        } else {
            p
        };
        val
    }
}

/// Envelope detector with a slow carrier-level tracker and an asymmetric
/// automatic gain control. The coefficient fields are fixed at construction.
pub struct AMDemodulator {
    /// Tracked carrier level, updated every sample.
    pub carrier_estimate: u32,
    /// Smoothed gain, updated every sample.
    pub gain: u32,
    /// Carrier tracker coefficient.
    pub carrier_alpha: u32,
    /// Gain smoothing when the gain rises.
    pub agc_attack_alpha: u32,
    /// Gain smoothing when the gain falls.
    pub agc_release_alpha: u32,
    /// Output level the gain control aims at.
    pub target_level: u32,
    /// Gain ceiling.
    pub max_gain: u32,
    /// Clip bound of the audio output.
    pub output_clip: u32,
}

impl AMDemodulator {
    /// The coefficient fields hold the fixed design constants.
    pub open spec fn wf(self) -> bool {
        &&& self.carrier_alpha == F32_CARRIER_ALPHA
        &&& self.agc_attack_alpha == F32_AGC_ATTACK
        &&& self.agc_release_alpha == F32_AGC_RELEASE
        &&& self.target_level == F32_AGC_TARGET
        &&& self.max_gain == F32_MAX_GAIN
        &&& self.output_clip == F32_OUTPUT_CLIP
    }

    /// A fresh demodulator: zero carrier estimate and gain, the fixed
    /// coefficients.
    pub fn new() -> (s: AMDemodulator)
        ensures
            s.wf(),
            s.carrier_estimate == F32_ZERO,
            s.gain == F32_ZERO,
    {
        AMDemodulator {
            carrier_estimate: F32_ZERO,
            gain: F32_ZERO,
            carrier_alpha: F32_CARRIER_ALPHA,
            agc_attack_alpha: F32_AGC_ATTACK,
            agc_release_alpha: F32_AGC_RELEASE,
            target_level: F32_AGC_TARGET,
            max_gain: F32_MAX_GAIN,
            output_clip: F32_OUTPUT_CLIP,
        }
    }

    /// Demodulate one block in place of equal length: for each sample, the
    /// envelope is tracked, its DC is removed, the gain control follows, and
    /// the clipped product is written out.
    pub fn demodulate(&mut self, input: &Vec<Cx>, output: &mut Vec<u32>)
        requires
            old(self).wf(),
            old(output)@.len() == input@.len(),
        ensures
            final(self).wf(),
            *final(self) == demod_run(*old(self), input@).0,
            final(output)@ == demod_run(*old(self), input@).1,
            final(output)@.len() == input@.len(),
    {
        let ghost st0 = *self;
        let n = input.len();
        output.clear();
        for i in 0..n
            invariant
                self.wf(),
                input@.len() == n,
                *self == demod_run(st0, input@.take(i as int)).0,
                output@ == demod_run(st0, input@.take(i as int)).1,
                output@.len() == i,
        {
            let sample = input[i];
            let env = crate::cpx::norm(sample);
            self.carrier_estimate = add32(
                self.carrier_estimate,
                mul32(self.carrier_alpha, sub32(env, self.carrier_estimate)),
            );
            let ac = sub32(env, self.carrier_estimate);
            let desired_gain = if gt32(self.carrier_estimate, F32_CARRIER_MIN) {
                proof {
                    assert(0x4248_0000u32 & 0x7fff_ffffu32 != 0) by (bit_vector);
                }
                min32_nz(div32(self.target_level, self.carrier_estimate), self.max_gain)
            } else {
                F32_ZERO
            };
            let agc_alpha = if gt32(desired_gain, self.gain) {
                self.agc_attack_alpha
            } else {
                self.agc_release_alpha
            };
            self.gain = add32(self.gain, mul32(agc_alpha, sub32(desired_gain, self.gain)));
            let out = crate::fmath::clamp32(
                mul32(ac, self.gain),
                neg32(self.output_clip),
                self.output_clip,
            );
            output.push(out);
            proof {
                lemma_demod_run_snoc(st0, input@.take(i as int), input@[i as int]);
                assert(input@.take(i as int + 1) =~= input@.take(i as int) + seq![input@[i as int]]);
            }
        }
        proof {
            assert(input@.take(n as int) =~= input@);
        }
    }
}

/// One step of the demodulator: the new tracker and gain state, and the
/// audio sample written out.
pub open spec fn demod_step(st: AMDemodulator, sample: Cx) -> (AMDemodulator, u32) {
    let env = f32_hypot(sample.re, sample.im);
    let carrier = f32_add(st.carrier_estimate, f32_mul(st.carrier_alpha, f32_sub(env, st.carrier_estimate)));
    let ac = f32_sub(env, carrier);
    let desired = if f32_lt(F32_CARRIER_MIN, carrier) {
        f32_min(f32_div(st.target_level, carrier), st.max_gain)
    } else {
        F32_ZERO
    };
    let alpha = if f32_lt(st.gain, desired) {
        st.agc_attack_alpha
    } else {
        st.agc_release_alpha
    };
    let gain = f32_add(st.gain, f32_mul(alpha, f32_sub(desired, st.gain)));
    let out = f32_clamp(f32_mul(ac, gain), f32_neg(st.output_clip), st.output_clip);
    (AMDemodulator { carrier_estimate: carrier, gain, ..st }, out)
}

/// The demodulator run over a whole block: the final state and the audio
/// samples in order.
pub open spec fn demod_run(st: AMDemodulator, input: Seq<Cx>) -> (AMDemodulator, Seq<u32>)
    decreases input.len(),
{
    if input.len() == 0 {
        (st, Seq::empty())
    } else {
        let first = demod_step(st, input[0]);
        let rest = demod_run(first.0, input.skip(1));
        (rest.0, seq![first.1] + rest.1)
    }
}

/// Splitting a block anywhere does not change the demodulator: running the
/// concatenation equals running the parts in sequence, both in the final
/// state and in the concatenated audio.
pub proof fn lemma_demod_chunk_invariance(st: AMDemodulator, a: Seq<Cx>, b: Seq<Cx>)
    ensures
        demod_run(st, a + b).0 == demod_run(demod_run(st, a).0, b).0,
        demod_run(st, a + b).1 == demod_run(st, a).1 + demod_run(demod_run(st, a).0, b).1,
    decreases a.len(),
{
    if a.len() == 0 {
        assert(a + b =~= b);
        assert(demod_run(st, a).1 + demod_run(demod_run(st, a).0, b).1 =~= demod_run(st, b).1);
    } else {
        let first = demod_step(st, a[0]);
        assert((a + b)[0] == a[0]);
        assert((a + b).skip(1) =~= a.skip(1) + b);
        lemma_demod_chunk_invariance(first.0, a.skip(1), b);
        assert(seq![first.1] + (demod_run(first.0, a.skip(1)).1 + demod_run(
            demod_run(first.0, a.skip(1)).0,
            b,
        ).1) =~= (seq![first.1] + demod_run(first.0, a.skip(1)).1) + demod_run(
            demod_run(first.0, a.skip(1)).0,
            b,
        ).1);
    }
}

/// Appending one sample to a block appends one step to the run.
pub proof fn lemma_demod_run_snoc(st: AMDemodulator, a: Seq<Cx>, x: Cx)
    ensures
        demod_run(st, a + seq![x]).0 == demod_step(demod_run(st, a).0, x).0,
        demod_run(st, a + seq![x]).1 == demod_run(st, a).1 + seq![demod_step(demod_run(st, a).0, x).1],
{
    lemma_demod_chunk_invariance(st, a, seq![x]);
    let st1 = demod_run(st, a).0;
    let s = seq![x];
    assert(s.skip(1) =~= Seq::<Cx>::empty());
    assert(demod_run(demod_step(st1, x).0, s.skip(1)).1 =~= Seq::<u32>::empty());
    assert(demod_run(st1, s).0 == demod_step(st1, x).0);
    assert(demod_run(st1, s).1 =~= seq![demod_step(st1, x).1]);
}

} // verus!
