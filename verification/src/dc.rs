use vstd::prelude::*;

use crate::bits::{f32_gt_zero, f32_lt, F32_NEG_TWO_PI, F32_ONE, F32_TWO, F32_ZERO};
use crate::cpx::{cx_add, cx_scale, cx_sub, Cx};
use crate::fmath::{div32, exp32, f32_div, f32_exp, f32_mul, mul32};

verus! {

// A steep DC notch for complex IQ streams: a second-order IIR section with
// both zeros at z = 1, run twice in cascade. The closer the pole radius is to
// one, the narrower the notch.

/// One second-order notch section with its last two inputs and outputs.
pub struct DcNotch2 {
    /// Pole radius, strictly inside the unit circle for a stable notch.
    pub r: u32,
    /// Previous input.
    pub x1: Cx,
    /// Input before the previous one.
    pub x2: Cx,
    /// Previous output.
    pub y1: Cx,
    /// Output before the previous one.
    pub y2: Cx,
}

/// The output a section produces for the next sample:
/// y = x - 2 x1 + x2 + 2 r y1 - r^2 y2, in the section's operation order.
pub open spec fn notch_out(st: DcNotch2, x: Cx) -> Cx {
    cx_sub(
        cx_add(
            cx_add(cx_sub(x, cx_scale(st.x1, F32_TWO)), st.x2),
            cx_scale(st.y1, f32_mul(F32_TWO, st.r)),
        ),
        cx_scale(st.y2, f32_mul(st.r, st.r)),
    )
}

/// The section state after absorbing the next sample.
pub open spec fn notch_step(st: DcNotch2, x: Cx) -> DcNotch2 {
    DcNotch2 { r: st.r, x1: x, x2: st.x1, y1: notch_out(st, x), y2: st.y1 }
}

/// A fresh section with the given pole radius and zeroed taps.
pub open spec fn notch_new(r: u32) -> DcNotch2 {
    DcNotch2 {
        r,
        x1: Cx::spec_zero(),
        x2: Cx::spec_zero(),
        y1: Cx::spec_zero(),
        y2: Cx::spec_zero(),
    }
}

impl DcNotch2 {
    fn new(r: u32) -> (s: DcNotch2)
        ensures
            s == notch_new(r),
    {
        DcNotch2 { r, x1: Cx::zero(), x2: Cx::zero(), y1: Cx::zero(), y2: Cx::zero() }
    }

    fn process(&mut self, sample: Cx) -> (y: Cx)
        ensures
            y == notch_out(*old(self), sample),
            *final(self) == notch_step(*old(self), sample),
    {
        let r2 = mul32(self.r, self.r);
        let y = crate::cpx::sub(
            crate::cpx::add(
                crate::cpx::add(
                    crate::cpx::sub(sample, crate::cpx::scale(self.x1, F32_TWO)),
                    self.x2,
                ),
                crate::cpx::scale(self.y1, mul32(F32_TWO, self.r)),
            ),
            crate::cpx::scale(self.y2, r2),
        );
        self.x2 = self.x1;
        self.x1 = sample;
        self.y2 = self.y1;
        self.y1 = y;
        y
    }
}

/// Two cascaded notch sections (a fourth-order DC canceller overall).
pub struct DcCanceller {
    /// First section.
    pub stage1: DcNotch2,
    /// Second section, fed by the first.
    pub stage2: DcNotch2,
}

/// The pole radius derived from the sample rate and the narrowing factor Q:
/// exp(-2 pi (sample_rate / q) / sample_rate), computed in that order.
pub open spec fn dc_pole_radius(sample_rate_hz: u32, q: u32) -> u32 {
    f32_exp(f32_div(f32_mul(F32_NEG_TWO_PI, f32_div(sample_rate_hz, q)), sample_rate_hz))
}

/// The canceller's output for the next sample: both sections in sequence.
pub open spec fn dc_out(st: DcCanceller, x: Cx) -> Cx {
    notch_out(st.stage2, notch_out(st.stage1, x))
}

/// The canceller state after absorbing the next sample.
pub open spec fn dc_step(st: DcCanceller, x: Cx) -> DcCanceller {
    DcCanceller {
        stage1: notch_step(st.stage1, x),
        stage2: notch_step(st.stage2, notch_out(st.stage1, x)),
    }
}

impl DcCanceller {
    /// Build a canceller for the given sample rate (encoded, strictly
    /// positive) and narrowing factor Q (encoded, strictly above one).
    pub fn new(sample_rate_hz: u32, q: u32) -> (s: DcCanceller)
        requires
            f32_gt_zero(sample_rate_hz),
            f32_lt(F32_ONE, q),
        ensures
            s.stage1 == notch_new(dc_pole_radius(sample_rate_hz, q)),
            s.stage2 == notch_new(dc_pole_radius(sample_rate_hz, q)),
    {
        let notch_bw_hz = div32(sample_rate_hz, q);
        let r = exp32(div32(mul32(F32_NEG_TWO_PI, notch_bw_hz), sample_rate_hz));
        DcCanceller { stage1: DcNotch2::new(r), stage2: DcNotch2::new(r) }
    }

    /// Run one sample through both sections.
    pub fn process(&mut self, sample: Cx) -> (y: Cx)
        ensures
            y == dc_out(*old(self), sample),
            *final(self) == dc_step(*old(self), sample),
    {
        let y1 = self.stage1.process(sample);
        self.stage2.process(y1)
    }
}

/// The canceller run over a whole block: final state and outputs in order.
pub open spec fn dc_run(st: DcCanceller, input: Seq<Cx>) -> (DcCanceller, Seq<Cx>)
    decreases input.len(),
{
    if input.len() == 0 {
        (st, Seq::empty())
    } else {
        let rest = dc_run(dc_step(st, input[0]), input.skip(1));
        (rest.0, seq![dc_out(st, input[0])] + rest.1)
    }
}

/// Splitting a block anywhere does not change the canceller: running the
/// concatenation equals running the parts in sequence, both in the final
/// taps and in the concatenated output.
pub proof fn lemma_dc_chunk_invariance(st: DcCanceller, a: Seq<Cx>, b: Seq<Cx>)
    ensures
        dc_run(st, a + b).0 == dc_run(dc_run(st, a).0, b).0,
        dc_run(st, a + b).1 == dc_run(st, a).1 + dc_run(dc_run(st, a).0, b).1,
    decreases a.len(),
{
    if a.len() == 0 {
        assert(a + b =~= b);
        assert(dc_run(st, a).1 + dc_run(dc_run(st, a).0, b).1 =~= dc_run(st, b).1);
    } else {
        assert((a + b)[0] == a[0]);
        assert((a + b).skip(1) =~= a.skip(1) + b);
        let st1 = dc_step(st, a[0]);
        lemma_dc_chunk_invariance(st1, a.skip(1), b);
        assert(seq![dc_out(st, a[0])] + (dc_run(st1, a.skip(1)).1 + dc_run(
            dc_run(st1, a.skip(1)).0,
            b,
        ).1) =~= (seq![dc_out(st, a[0])] + dc_run(st1, a.skip(1)).1) + dc_run(
            dc_run(st1, a.skip(1)).0,
            b,
        ).1);
    }
}

} // verus!
