use vstd::prelude::*;

use crate::bits::{
    f64_lt, f64_mag, F32_ZERO, F64_095, F64_BLACKMAN_A, F64_BLACKMAN_B, F64_BLACKMAN_C,
    F64_FOUR_PI, F64_HALF, F64_ONE, F64_PI, F64_SINC_EPS, F64_TWO, F64_TWO_PI, F64_ZERO,
};
use crate::fmath::{
    abs64, add32, add64, cos64, div64, f32_add, f32_mul, f32_of_f64, f32_to_f64, f64_add, f64_cos,
    f64_div, f64_floor, f64_mul, f64_of_f32, f64_of_isize, f64_of_u32, f64_of_usize, f64_sin,
    f64_sub, f64_to_f32, f64_to_isize, f64_to_usize, floor64, isize_of_f64, isize_to_f64, lt64,
    mul32, mul64, sin64, sub64, u32_to_f64, usize_of_f64, usize_to_f64,
};

verus! {

// A rational-rate resampler: a polyphase bank of Blackman-windowed sinc
// filters, indexed by the fractional part of a double-precision input-time
// phase that is carried across blocks.

/// How many fractional phases the bank holds.
pub const RS_NUM_PHASES: usize = 256;

/// Taps per polyphase branch (odd, for linear phase).
pub const RS_TAPS: usize = 17;

/// Half the branch length, the look-around of each output sample.
pub const RS_CENTER: usize = 8;

/// The source-normalized cutoff: half the rate ratio capped at one, with a
/// five-percent transition margin.
pub open spec fn rs_cutoff(source_rate: u32, target_rate: u32) -> u64 {
    let ratio = f64_div(f64_of_u32(target_rate), f64_of_u32(source_rate));
    let capped = if f64_lt(ratio, F64_ONE) {
        ratio
    } else {
        F64_ONE
    };
    f64_mul(f64_mul(F64_HALF, capped), F64_095)
}

/// The half-length of a branch as the design computes it.
pub open spec fn rs_center_f() -> u64 {
    f64_div(f64_of_usize((RS_TAPS - 1) as usize), F64_TWO)
}

/// The sinc argument position of tap i in phase branch p.
pub open spec fn rs_x(p: int, i: int) -> u64 {
    f64_sub(
        f64_sub(f64_of_usize(i as usize), rs_center_f()),
        f64_div(f64_of_usize(p as usize), f64_of_usize(RS_NUM_PHASES)),
    )
}

/// The guarded cardinal sine of the design: one near zero, sin(pi x)/(pi x)
/// elsewhere.
pub open spec fn rs_sinc(arg: u64) -> u64 {
    if f64_lt(f64_mag(arg), F64_SINC_EPS) {
        F64_ONE
    } else {
        f64_div(f64_sin(f64_mul(F64_PI, arg)), f64_mul(F64_PI, arg))
    }
}

/// The Blackman window at tap i.
pub open spec fn rs_window(i: int) -> u64 {
    f64_add(
        f64_sub(
            F64_BLACKMAN_A,
            f64_mul(
                F64_BLACKMAN_B,
                f64_cos(
                    f64_div(
                        f64_mul(F64_TWO_PI, f64_of_usize(i as usize)),
                        f64_of_usize((RS_TAPS - 1) as usize),
                    ),
                ),
            ),
        ),
        f64_mul(
            F64_BLACKMAN_C,
            f64_cos(
                f64_div(
                    f64_mul(F64_FOUR_PI, f64_of_usize(i as usize)),
                    f64_of_usize((RS_TAPS - 1) as usize),
                ),
            ),
        ),
    )
}

/// The unnormalized branch tap: 2 cutoff sinc(2 cutoff x) windowed.
pub open spec fn rs_h(source_rate: u32, target_rate: u32, p: int, i: int) -> u64 {
    let cutoff = rs_cutoff(source_rate, target_rate);
    let arg = f64_mul(f64_mul(F64_TWO, cutoff), rs_x(p, i));
    f64_mul(f64_mul(f64_mul(F64_TWO, cutoff), rs_sinc(arg)), rs_window(i))
}

/// Running sum of the first k unnormalized taps of a branch.
pub open spec fn rs_sum(source_rate: u32, target_rate: u32, p: int, k: nat) -> u64
    decreases k,
{
    if k == 0 {
        F64_ZERO
    } else {
        f64_add(rs_sum(source_rate, target_rate, p, (k - 1) as nat), rs_h(source_rate, target_rate, p, k - 1))
    }
}

/// The stored branch tap: rounded to single precision, then renormalized so
/// the branch sums to one.
pub open spec fn rs_coeff(source_rate: u32, target_rate: u32, p: int, i: int) -> u32 {
    let inv_sum = f64_div(F64_ONE, rs_sum(source_rate, target_rate, p, RS_TAPS as nat));
    f32_of_f64(f64_mul(f64_of_f32(f32_of_f64(rs_h(source_rate, target_rate, p, i))), inv_sum))
}

/// The loop bound of one block: output samples are produced while the phase
/// stays under the block length minus the look-around.
pub open spec fn rs_limit(len: int) -> u64 {
    f64_sub(f64_of_usize(len as usize), f64_of_isize(RS_CENTER as isize))
}

/// The tap window base index for the current phase, kept inside the virtual
/// buffer; on every run whose phase stayed in its working range this is the
/// floor of the phase unchanged.
pub open spec fn rs_base(len: int, phase: u64) -> int {
    let base = isize_of_f64(f64_floor(phase)) as int;
    if base < -(RS_CENTER as int) {
        -(RS_CENTER as int)
    } else if base > len - (RS_CENTER as int) - 1 {
        len - (RS_CENTER as int) - 1
    } else {
        base
    }
}

/// Which polyphase branch the fractional phase selects.
pub open spec fn rs_phase_idx(phase: u64) -> int {
    let frac = f64_sub(phase, f64_of_isize(isize_of_f64(f64_floor(phase))));
    let raw = usize_of_f64(f64_floor(f64_mul(frac, f64_of_usize(RS_NUM_PHASES))));
    if raw >= RS_NUM_PHASES {
        RS_NUM_PHASES as int - 1
    } else {
        raw as int
    }
}

/// The first k terms of one branch's multiply-accumulate over the virtual
/// buffer.
pub open spec fn rs_mac(branch: Seq<u32>, virt: Seq<u32>, start: int, k: nat) -> u32
    decreases k,
{
    if k == 0 {
        F32_ZERO
    } else {
        f32_add(rs_mac(branch, virt, start, (k - 1) as nat), f32_mul(virt[start + (k - 1)], branch[k - 1]))
    }
}

/// The output sample one loop iteration emits at the given phase.
pub open spec fn rs_step_out(coeffs: Seq<Seq<u32>>, virt: Seq<u32>, len: int, phase: u64) -> u32 {
    rs_mac(
        coeffs[rs_phase_idx(phase)],
        virt,
        rs_base(len, phase) + (RS_CENTER as int),
        RS_TAPS as nat,
    )
}

/// The phase and the emitted samples after k loop iterations.
pub open spec fn rs_run(
    coeffs: Seq<Seq<u32>>,
    virt: Seq<u32>,
    len: int,
    step: u64,
    phase: u64,
    k: nat,
) -> (u64, Seq<u32>)
    decreases k,
{
    if k == 0 {
        (phase, Seq::empty())
    } else {
        let prev = rs_run(coeffs, virt, len, step, phase, (k - 1) as nat);
        (f64_add(prev.0, step), prev.1 + seq![rs_step_out(coeffs, virt, len, prev.0)])
    }
}

/// The history carried out of a block: its last (taps - 1) samples, padded
/// from the old history when the block is shorter.
pub open spec fn rs_next_hist(hist: Seq<u32>, input: Seq<u32>) -> Seq<u32> {
    (hist + input).skip(input.len() as int)
}

/// Fractional-rate resampler with a carried double-precision phase.
pub struct Resampler {
    /// Input sample rate in Hz.
    pub source_rate: u32,
    /// Output sample rate in Hz.
    pub target_rate: u32,
    /// Input-time advance per output sample: source rate over target rate.
    pub step: u64,
    /// Input-time index of the next output sample, relative to the current
    /// block.
    pub phase: u64,
    /// Number of polyphase branches.
    pub num_phases: usize,
    /// Taps per branch.
    pub taps_per_phase: usize,
    /// The polyphase bank.
    pub coeffs: Vec<Vec<u32>>,
    /// The last (taps - 1) input samples.
    pub history: Vec<u32>,
}

impl Resampler {
    /// Structural soundness: the fixed bank geometry.
    pub open spec fn wf(self) -> bool {
        &&& self.num_phases == RS_NUM_PHASES
        &&& self.taps_per_phase == RS_TAPS
        &&& self.coeffs@.len() == RS_NUM_PHASES
        &&& forall|p: int| 0 <= p < RS_NUM_PHASES ==> (#[trigger] self.coeffs@[p])@.len() == RS_TAPS
        &&& self.history@.len() == RS_TAPS - 1
    }

    /// Build a resampler between two positive rates: the bank is designed at
    /// the capped half-ratio cutoff and each branch is normalized to unit
    /// sum.
    pub fn new(source_rate: u32, target_rate: u32) -> (s: Resampler)
        requires
            source_rate >= 1,
            target_rate >= 1,
        ensures
            s.wf(),
            s.source_rate == source_rate,
            s.target_rate == target_rate,
            s.step == f64_div(f64_of_u32(source_rate), f64_of_u32(target_rate)),
            s.phase == F64_ZERO,
            s.history@ == Seq::new((RS_TAPS - 1) as nat, |i: int| F32_ZERO),
            forall|p: int, i: int|
                0 <= p < RS_NUM_PHASES && 0 <= i < RS_TAPS ==> (#[trigger] s.coeffs@[p]@[i])
                    == rs_coeff(source_rate, target_rate, p, i),
    {
        let step = div64(u32_to_f64(source_rate), u32_to_f64(target_rate));
        let ratio = div64(u32_to_f64(target_rate), u32_to_f64(source_rate));
        let capped = if lt64(ratio, F64_ONE) {
            ratio
        } else {
            F64_ONE
        };
        let cutoff = mul64(mul64(F64_HALF, capped), F64_095);
        let center = div64(usize_to_f64(RS_TAPS - 1), F64_TWO);
        let mut coeffs: Vec<Vec<u32>> = Vec::new();
        for p in 0..RS_NUM_PHASES
            invariant
                cutoff == rs_cutoff(source_rate, target_rate),
                center == rs_center_f(),
                coeffs@.len() == p,
                forall|q: int| 0 <= q < p ==> (#[trigger] coeffs@[q])@.len() == RS_TAPS,
                forall|q: int, i: int|
                    0 <= q < p && 0 <= i < RS_TAPS ==> (#[trigger] coeffs@[q]@[i]) == rs_coeff(
                        source_rate,
                        target_rate,
                        q,
                        i,
                    ),
        {
            let frac = div64(usize_to_f64(p), usize_to_f64(RS_NUM_PHASES));
            let mut raw: Vec<u32> = Vec::new();
            let mut hsum: u64 = F64_ZERO;
            for i in 0..RS_TAPS
                invariant
                    cutoff == rs_cutoff(source_rate, target_rate),
                    center == rs_center_f(),
                    frac == f64_div(f64_of_usize(p as usize), f64_of_usize(RS_NUM_PHASES)),
                    p < RS_NUM_PHASES,
                    raw@.len() == i,
                    hsum == rs_sum(source_rate, target_rate, p as int, i as nat),
                    forall|j: int|
                        0 <= j < i ==> raw@[j] == f32_of_f64(
                            rs_h(source_rate, target_rate, p as int, j),
                        ),
            {
                let x = sub64(sub64(usize_to_f64(i), center), frac);
                let sinc_arg = mul64(mul64(F64_TWO, cutoff), x);
                let sinc = if lt64(abs64(sinc_arg), F64_SINC_EPS) {
                    F64_ONE
                } else {
                    let pix = mul64(F64_PI, sinc_arg);
                    div64(sin64(pix), pix)
                };
                let w = add64(
                    sub64(
                        F64_BLACKMAN_A,
                        mul64(
                            F64_BLACKMAN_B,
                            cos64(div64(mul64(F64_TWO_PI, usize_to_f64(i)), usize_to_f64(RS_TAPS - 1))),
                        ),
                    ),
                    mul64(
                        F64_BLACKMAN_C,
                        cos64(div64(mul64(F64_FOUR_PI, usize_to_f64(i)), usize_to_f64(RS_TAPS - 1))),
                    ),
                );
                let h = mul64(mul64(mul64(F64_TWO, cutoff), sinc), w);
                raw.push(f64_to_f32(h));
                hsum = add64(hsum, h);
            }
            let inv_sum = div64(F64_ONE, hsum);
            let mut branch: Vec<u32> = Vec::new();
            for i in 0..RS_TAPS
                invariant
                    raw@.len() == RS_TAPS,
                    p < RS_NUM_PHASES,
                    branch@.len() == i,
                    inv_sum == f64_div(
                        F64_ONE,
                        rs_sum(source_rate, target_rate, p as int, RS_TAPS as nat),
                    ),
                    forall|j: int|
                        0 <= j < RS_TAPS ==> raw@[j] == f32_of_f64(
                            rs_h(source_rate, target_rate, p as int, j),
                        ),
                    forall|j: int|
                        0 <= j < i ==> branch@[j] == rs_coeff(source_rate, target_rate, p as int, j),
            {
                branch.push(f64_to_f32(mul64(f32_to_f64(raw[i]), inv_sum)));
            }
            coeffs.push(branch);
        }
        let mut history: Vec<u32> = Vec::new();
        for i in 0..RS_TAPS - 1
            invariant
                history@.len() == i,
                forall|j: int| 0 <= j < i ==> history@[j] == F32_ZERO,
        {
            history.push(F32_ZERO);
        }
        let s = Resampler {
            source_rate,
            target_rate,
            step,
            phase: F64_ZERO,
            num_phases: RS_NUM_PHASES,
            taps_per_phase: RS_TAPS,
            coeffs,
            history,
        };
        proof {
            assert(s.history@ =~= Seq::new((RS_TAPS - 1) as nat, |i: int| F32_ZERO));
        }
        s
    }

    /// Resample one block, appending to the output. Output samples are drawn
    /// while the carried phase stays far enough from the block's end for the
    /// tap window; the fractional remainder of the phase and the last input
    /// samples carry into the next call, so a stream may be fed in blocks of
    /// any size.
    pub fn process(&mut self, input: &Vec<u32>, output: &mut Vec<u32>)
        requires
            old(self).wf(),
            input@.len() <= isize::MAX as int - 64,
        ensures
            final(self).wf(),
            final(self).source_rate == old(self).source_rate,
            final(self).target_rate == old(self).target_rate,
            final(self).step == old(self).step,
            final(self).num_phases == old(self).num_phases,
            final(self).taps_per_phase == old(self).taps_per_phase,
            final(self).coeffs == old(self).coeffs,
            input@.len() == 0 ==> *final(self) == *old(self) && final(output)@ == old(output)@,
            input@.len() > 0 ==> exists|k: nat|
                {
                    let run = rs_run(
                        view_bank(old(self).coeffs@),
                        old(self).history@ + input@,
                        input@.len() as int,
                        old(self).step,
                        old(self).phase,
                        k,
                    );
                    &&& #[trigger] rs_run(
                        view_bank(old(self).coeffs@),
                        old(self).history@ + input@,
                        input@.len() as int,
                        old(self).step,
                        old(self).phase,
                        k,
                    ) == run
                    &&& forall|j: nat|
                        j < k ==> f64_lt(
                            #[trigger] rs_run(
                                view_bank(old(self).coeffs@),
                                old(self).history@ + input@,
                                input@.len() as int,
                                old(self).step,
                                old(self).phase,
                                j,
                            ).0,
                            rs_limit(input@.len() as int),
                        )
                    &&& (!f64_lt(run.0, rs_limit(input@.len() as int)) || k == usize::MAX)
                    &&& final(output)@ == old(output)@ + run.1
                    &&& final(self).phase == f64_sub(run.0, f64_of_usize(input@.len() as usize))
                },
            input@.len() > 0 ==> final(self).history@ == rs_next_hist(old(self).history@, input@),
    {
        if input.len() == 0 {
            return ;
        }
        let len = input.len();
        let prefix_len = self.history.len();
        let mut buffer: Vec<u32> = Vec::new();
        for j in 0..prefix_len
            invariant
                prefix_len == self.history@.len(),
                buffer@.len() == j,
                forall|t: int| 0 <= t < j ==> buffer@[t] == self.history@[t],
        {
            buffer.push(self.history[j]);
        }
        for j in 0..len
            invariant
                len == input@.len(),
                prefix_len == self.history@.len(),
                buffer@.len() == prefix_len + j,
                forall|t: int| 0 <= t < prefix_len ==> buffer@[t] == self.history@[t],
                forall|t: int| 0 <= t < j ==> buffer@[prefix_len + t] == input@[t],
        {
            buffer.push(input[j]);
        }
        proof {
            assert(buffer@ =~= old(self).history@ + input@);
        }
        let ghost virt = old(self).history@ + input@;
        let ghost bank = view_bank(old(self).coeffs@);
        let ghost step0 = old(self).step;
        let ghost phase0 = old(self).phase;
        let ghost out0 = old(output)@;
        let center: isize = (RS_TAPS as isize - 1) / 2;
        let limit = sub64(usize_to_f64(len), isize_to_f64(center));
        let mut fuel: usize = usize::MAX;
        while fuel > 0 && lt64(self.phase, limit)
            invariant
                self.wf(),
                self.step == step0,
                self.source_rate == old(self).source_rate,
                self.target_rate == old(self).target_rate,
                self.num_phases == old(self).num_phases,
                self.taps_per_phase == old(self).taps_per_phase,
                self.coeffs == old(self).coeffs,
                self.history == old(self).history,
                bank == view_bank(self.coeffs@),
                len == input@.len(),
                1 <= len <= isize::MAX as int - 64,
                prefix_len == RS_TAPS - 1,
                center == RS_CENTER as isize,
                buffer@ == virt,
                buffer@.len() == prefix_len + len,
                limit == rs_limit(len as int),
                self.phase == rs_run(bank, virt, len as int, step0, phase0, (usize::MAX - fuel) as nat).0,
                output@ == out0 + rs_run(bank, virt, len as int, step0, phase0, (usize::MAX - fuel) as nat).1,
                forall|j: nat|
                    j < usize::MAX - fuel ==> f64_lt(
                        #[trigger] rs_run(bank, virt, len as int, step0, phase0, j).0,
                        rs_limit(len as int),
                    ),
            decreases fuel,
        {
            let ghost k_before = (usize::MAX - fuel) as nat;
            let ghost self_snap = *self;
            let base = f64_to_isize(floor64(self.phase));
            let hi: isize = len as isize - center - 1;
            let basec = if base < -center {
                -center
            } else if base > hi {
                hi
            } else {
                base
            };
            proof {
                assert(basec as int == rs_base(len as int, self.phase));
                assert(-(RS_CENTER as int) <= basec as int <= len - RS_CENTER - 1);
            }
            let frac = sub64(self.phase, isize_to_f64(base));
            let raw_idx = f64_to_usize(floor64(mul64(frac, usize_to_f64(self.num_phases))));
            let phase_idx = if raw_idx >= self.num_phases {
                self.num_phases - 1
            } else {
                raw_idx
            };
            proof {
                assert(phase_idx as int == rs_phase_idx(self.phase));
            }
            let start = basec - center;
            let mut sum: u32 = F32_ZERO;
            let mut t: usize = 0;
            while t < RS_TAPS
                invariant
                    *self == self_snap,
                    self.wf(),
                    t <= RS_TAPS,
                    bank == view_bank(self.coeffs@),
                    phase_idx < RS_NUM_PHASES,
                    buffer@.len() == prefix_len + len,
                    prefix_len == RS_TAPS - 1,
                    center == RS_CENTER as isize,
                    1 <= len <= isize::MAX as int - 64,
                    start == basec - center,
                    -(RS_CENTER as int) <= basec as int <= len - RS_CENTER - 1,
                    sum == rs_mac(
                        bank[phase_idx as int],
                        buffer@,
                        basec as int + RS_CENTER as int,
                        t as nat,
                    ),
                decreases RS_TAPS - t,
            {
                let buf_idx = (start + t as isize + prefix_len as isize) as usize;
                proof {
                    assert(buf_idx as int == (basec as int + RS_CENTER as int) + t);
                    assert(buf_idx < buffer@.len());
                }
                sum = add32(sum, mul32(buffer[buf_idx], self.coeffs[phase_idx][t]));
                t = t + 1;
            }
            output.push(sum);
            self.phase = add64(self.phase, self.step);
            fuel = fuel - 1;
            proof {
                let k_after = (usize::MAX - fuel) as nat;
                assert(k_after == k_before + 1);
                assert(rs_run(bank, virt, len as int, step0, phase0, k_after).0 == f64_add(
                    rs_run(bank, virt, len as int, step0, phase0, k_before).0,
                    step0,
                ));
                assert(self.phase == f64_add(
                    rs_run(bank, virt, len as int, step0, phase0, k_before).0,
                    step0,
                ));
                assert(sum == rs_step_out(bank, virt, len as int, rs_run(bank, virt, len as int, step0, phase0, k_before).0));
                assert(rs_run(bank, virt, len as int, step0, phase0, k_after).1 == rs_run(
                    bank,
                    virt,
                    len as int,
                    step0,
                    phase0,
                    k_before,
                ).1 + seq![sum]);
                assert(output@ =~= out0 + rs_run(bank, virt, len as int, step0, phase0, k_after).1);
            }
        }
        let ghost k_final = (usize::MAX - fuel) as nat;
        self.phase = sub64(self.phase, usize_to_f64(len));
        if prefix_len > 0 {
            if len >= prefix_len {
                for j in 0..prefix_len
                    invariant
                        prefix_len == self.history@.len(),
                        prefix_len >= 1,
                        len == input@.len(),
                        len >= prefix_len,
                        self.phase == f64_sub(
                            rs_run(bank, virt, len as int, step0, phase0, k_final).0,
                            f64_of_usize(len as usize),
                        ),
                        *self == (Resampler { phase: self.phase, history: self.history, ..*old(self) }),
                        forall|t: int| 0 <= t < j ==> self.history@[t] == input@[len - prefix_len + t],
                {
                    self.history[j] = input[len - prefix_len + j];
                }
            } else {
                let shift = len;
                for j in 0..prefix_len - shift
                    invariant
                        prefix_len == self.history@.len(),
                        1 <= shift < prefix_len,
                        shift == input@.len(),
                        self.phase == f64_sub(
                            rs_run(bank, virt, len as int, step0, phase0, k_final).0,
                            f64_of_usize(len as usize),
                        ),
                        *self == (Resampler { phase: self.phase, history: self.history, ..*old(self) }),
                        forall|t: int|
                            0 <= t < j ==> self.history@[t] == old(self).history@[t + shift],
                        forall|t: int|
                            j <= t < prefix_len ==> self.history@[t] == old(self).history@[t],
                {
                    self.history[j] = self.history[j + shift];
                }
                for j in 0..shift
                    invariant
                        prefix_len == self.history@.len(),
                        1 <= shift < prefix_len,
                        shift == input@.len(),
                        self.phase == f64_sub(
                            rs_run(bank, virt, len as int, step0, phase0, k_final).0,
                            f64_of_usize(len as usize),
                        ),
                        *self == (Resampler { phase: self.phase, history: self.history, ..*old(self) }),
                        forall|t: int|
                            0 <= t < prefix_len - shift ==> self.history@[t] == old(self).history@[t
                                + shift],
                        forall|t: int|
                            0 <= t < j ==> self.history@[prefix_len - shift + t] == input@[t],
                {
                    self.history[prefix_len - shift + j] = input[j];
                }
            }
        }
        proof {
            assert(self.history@ =~= rs_next_hist(old(self).history@, input@));
            let run = rs_run(bank, virt, len as int, step0, phase0, k_final);
            assert(final(output)@ == out0 + run.1);
        }
    }
}

/// The bank seen as a sequence of branches.
pub open spec fn view_bank(coeffs: Seq<Vec<u32>>) -> Seq<Seq<u32>> {
    Seq::new(coeffs.len(), |p: int| coeffs[p]@)
}

} // verus!
