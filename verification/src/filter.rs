use vstd::prelude::*;

use crate::bits::{f32_cmp, f32_lt, CMP_EQ, F32_HAMMING_A, F32_HAMMING_B, F32_ONE, F32_PI, F32_TWO,
    F32_TWO_PI, F32_ZERO};
use crate::cpx::{cx_add, cx_scale, Cx};
use crate::fmath::{
    add32, cos32, div32, eq32, f32_add, f32_cos, f32_div, f32_mul, f32_of_usize, f32_sin, f32_sub,
    mul32, sin32, sub32, usize_to_f32,
};
use vstd::arithmetic::div_mod::{
    lemma_fundamental_div_mod, lemma_fundamental_div_mod_converse,
};

verus! {

// A FIR decimation filter for the complex baseband: every M-th convolution
// output is emitted, and the emission grid, the tap history and the
// decimation phase are all carried across block boundaries so that chunked
// processing equals whole processing exactly.

/// FIR filter with integer downsampling.
pub struct DecimationFilter {
    /// Downsampling factor M, at least one.
    pub factor: usize,
    /// Input samples seen since the last emission, modulo the factor.
    pub phase: usize,
    /// The last (taps - 1) inputs, oldest first.
    pub history: Vec<Cx>,
    /// Filter taps.
    pub coeffs: Vec<u32>,
}

/// Index of the first emission inside the next block, given the carried
/// phase.
pub open spec fn first_emit(phase: int, factor: int) -> int {
    if phase == 0 {
        0
    } else {
        factor - phase
    }
}

/// How many emission grid points fall inside a block of the given length.
pub open spec fn emit_count(len: int, first: int, factor: int) -> int {
    if first >= len {
        0
    } else {
        (len - first - 1) / factor + 1
    }
}

/// The first k terms of the convolution read backwards from position `pos`
/// of the virtual buffer (history followed by the block), accumulated in tap
/// order.
pub open spec fn conv_pre(coeffs: Seq<u32>, virt: Seq<Cx>, pos: int, k: nat) -> Cx
    decreases k,
{
    if k == 0 {
        Cx::spec_zero()
    } else {
        cx_add(
            conv_pre(coeffs, virt, pos, (k - 1) as nat),
            cx_scale(virt[pos - (k - 1)], coeffs[k - 1]),
        )
    }
}

/// The full convolution at position `pos` of the virtual buffer.
pub open spec fn conv_at(coeffs: Seq<u32>, virt: Seq<Cx>, pos: int) -> Cx {
    conv_pre(coeffs, virt, pos, coeffs.len())
}

/// Everything one block of output contains: the convolution at each grid
/// point that falls inside the block.
pub open spec fn decim_outs(
    coeffs: Seq<u32>,
    hist: Seq<Cx>,
    phase: int,
    factor: int,
    input: Seq<Cx>,
) -> Seq<Cx> {
    Seq::new(
        emit_count(input.len() as int, first_emit(phase, factor), factor) as nat,
        |k: int|
            conv_at(
                coeffs,
                hist + input,
                hist.len() + first_emit(phase, factor) + k * factor,
            ),
    )
}

/// The history carried out of a block: the last (taps - 1) samples of the
/// virtual buffer.
pub open spec fn decim_next_hist(hist: Seq<Cx>, input: Seq<Cx>) -> Seq<Cx> {
    (hist + input).skip(input.len() as int)
}

/// The phase carried out of a block.
pub open spec fn decim_next_phase(phase: int, factor: int, len: int) -> int {
    (phase + len) % factor
}

/// The normalized low-pass tap value before normalization: windowed sinc.
pub open spec fn fir_pre(num_taps: int, cutoff_norm: u32, i: int) -> u32 {
    let center = f32_div(f32_of_usize((num_taps - 1) as usize), F32_TWO);
    let n = f32_sub(f32_of_usize(i as usize), center);
    let sinc = if f32_cmp(n, F32_ZERO) == CMP_EQ {
        f32_mul(F32_TWO, cutoff_norm)
    } else {
        f32_div(f32_sin(f32_mul(f32_mul(F32_TWO_PI, cutoff_norm), n)), f32_mul(F32_PI, n))
    };
    let window = f32_sub(
        F32_HAMMING_A,
        f32_mul(
            F32_HAMMING_B,
            f32_cos(
                f32_div(
                    f32_mul(F32_TWO_PI, f32_of_usize(i as usize)),
                    f32_of_usize((num_taps - 1) as usize),
                ),
            ),
        ),
    );
    f32_mul(sinc, window)
}

/// Running sum of the first k unnormalized taps, in accumulation order.
pub open spec fn fir_sum(num_taps: int, cutoff_norm: u32, k: nat) -> u32
    decreases k,
{
    if k == 0 {
        F32_ZERO
    } else {
        f32_add(fir_sum(num_taps, cutoff_norm, (k - 1) as nat), fir_pre(num_taps, cutoff_norm, k - 1))
    }
}

/// A tap of the DC-normalized windowed-sinc low-pass design.
pub open spec fn fir_coeff(num_taps: int, cutoff_norm: u32, i: int) -> u32 {
    f32_div(fir_pre(num_taps, cutoff_norm, i), fir_sum(num_taps, cutoff_norm, num_taps as nat))
}

/// A tap of the bandpass design: the high-cutoff low-pass minus the
/// low-cutoff low-pass, each normalized on its own. A lower edge at or below
/// zero encodes no low-cutoff branch at all (the ideal filter there is the
/// zero filter, which has no unit-gain normalization), so the band
/// degenerates to the plain low-pass.
pub open spec fn fir_band_coeff(num_taps: int, f_min: u32, f_max: u32, i: int) -> u32 {
    if f32_lt(F32_ZERO, f_min) {
        f32_sub(fir_coeff(num_taps, f_max, i), fir_coeff(num_taps, f_min, i))
    } else {
        fir_coeff(num_taps, f_max, i)
    }
}

/// Compute the DC-normalized windowed-sinc low-pass taps.
fn design_lpf(num_taps: usize, cutoff_norm: u32) -> (coeffs: Vec<u32>)
    requires
        num_taps >= 1,
    ensures
        coeffs@.len() == num_taps,
        forall|i: int| 0 <= i < num_taps ==> coeffs@[i] == fir_coeff(num_taps as int, cutoff_norm, i),
{
    let mut pre: Vec<u32> = Vec::new();
    let mut sum: u32 = F32_ZERO;
    let center = div32(usize_to_f32(num_taps - 1), F32_TWO);
    for i in 0..num_taps
        invariant
            pre@.len() == i,
            center == f32_div(f32_of_usize((num_taps - 1) as usize), F32_TWO),
            sum == fir_sum(num_taps as int, cutoff_norm, i as nat),
            forall|j: int| 0 <= j < i ==> pre@[j] == fir_pre(num_taps as int, cutoff_norm, j),
    {
        let n = sub32(usize_to_f32(i), center);
        let sinc = if eq32(n, F32_ZERO) {
            mul32(F32_TWO, cutoff_norm)
        } else {
            div32(sin32(mul32(mul32(F32_TWO_PI, cutoff_norm), n)), mul32(F32_PI, n))
        };
        let window = sub32(
            F32_HAMMING_A,
            mul32(
                F32_HAMMING_B,
                cos32(div32(mul32(F32_TWO_PI, usize_to_f32(i)), usize_to_f32(num_taps - 1))),
            ),
        );
        let c = mul32(sinc, window);
        pre.push(c);
        sum = add32(sum, c);
    }
    let mut coeffs: Vec<u32> = Vec::new();
    for i in 0..num_taps
        invariant
            pre@.len() == num_taps,
            coeffs@.len() == i,
            sum == fir_sum(num_taps as int, cutoff_norm, num_taps as nat),
            forall|j: int| 0 <= j < num_taps ==> pre@[j] == fir_pre(num_taps as int, cutoff_norm, j),
            forall|j: int| 0 <= j < i ==> coeffs@[j] == fir_coeff(num_taps as int, cutoff_norm, j),
    {
        coeffs.push(div32(pre[i], sum));
    }
    coeffs
}

impl DecimationFilter {
    /// Structural soundness: a positive factor, the phase inside it, and a
    /// history one shorter than the taps.
    pub open spec fn wf(self) -> bool {
        &&& self.factor >= 1
        &&& self.phase < self.factor
        &&& self.coeffs@.len() >= 1
        &&& self.history@.len() == self.coeffs@.len() - 1
    }

    /// A moving-average decimator: all taps equal 1/M, window length M.
    pub fn new_boxcar(factor: usize) -> (s: DecimationFilter)
        requires
            factor >= 1,
        ensures
            s.wf(),
            s.factor == factor,
            s.phase == 0,
            s.coeffs@ == Seq::new(factor as nat, |i: int| f32_div(F32_ONE, f32_of_usize(factor))),
            s.history@ == Seq::new((factor - 1) as nat, |i: int| Cx::spec_zero()),
    {
        let c = div32(F32_ONE, usize_to_f32(factor));
        let mut coeffs: Vec<u32> = Vec::new();
        for i in 0..factor
            invariant
                coeffs@.len() == i,
                forall|j: int| 0 <= j < i ==> coeffs@[j] == c,
                c == f32_div(F32_ONE, f32_of_usize(factor)),
        {
            coeffs.push(c);
        }
        let mut history: Vec<Cx> = Vec::new();
        for i in 0..factor - 1
            invariant
                history@.len() == i,
                forall|j: int| 0 <= j < i ==> history@[j] == Cx::spec_zero(),
        {
            history.push(Cx::zero());
        }
        let s = DecimationFilter { factor, phase: 0, history, coeffs };
        proof {
            assert(s.coeffs@ =~= Seq::new(factor as nat, |i: int| f32_div(F32_ONE, f32_of_usize(factor))));
            assert(s.history@ =~= Seq::new((factor - 1) as nat, |i: int| Cx::spec_zero()));
        }
        s
    }

    /// A windowed-sinc low-pass decimator with DC gain normalized to one.
    pub fn new_fir(factor: usize, num_taps: usize, cutoff_norm: u32) -> (s: DecimationFilter)
        requires
            factor >= 1,
            num_taps >= 1,
        ensures
            s.wf(),
            s.factor == factor,
            s.phase == 0,
            s.coeffs@.len() == num_taps,
            forall|i: int|
                0 <= i < num_taps ==> s.coeffs@[i] == fir_coeff(num_taps as int, cutoff_norm, i),
            s.history@ == Seq::new((num_taps - 1) as nat, |i: int| Cx::spec_zero()),
    {
        let coeffs = design_lpf(num_taps, cutoff_norm);
        let mut history: Vec<Cx> = Vec::new();
        for i in 0..num_taps - 1
            invariant
                history@.len() == i,
                forall|j: int| 0 <= j < i ==> history@[j] == Cx::spec_zero(),
        {
            history.push(Cx::zero());
        }
        let s = DecimationFilter { factor, phase: 0, history, coeffs };
        proof {
            assert(s.history@ =~= Seq::new((num_taps - 1) as nat, |i: int| Cx::spec_zero()));
        }
        s
    }

    /// A windowed-sinc bandpass decimator: the high-cutoff low-pass minus the
    /// low-cutoff low-pass under the same window, each constituent kept at
    /// its own unit DC gain.
    pub fn new_fir_band(factor: usize, num_taps: usize, f_min_norm: u32, f_max_norm: u32) -> (s:
        DecimationFilter)
        requires
            factor >= 1,
            num_taps >= 1,
        ensures
            s.wf(),
            s.factor == factor,
            s.phase == 0,
            s.coeffs@.len() == num_taps,
            forall|i: int|
                0 <= i < num_taps ==> s.coeffs@[i] == fir_band_coeff(
                    num_taps as int,
                    f_min_norm,
                    f_max_norm,
                    i,
                ),
            s.history@ == Seq::new((num_taps - 1) as nat, |i: int| Cx::spec_zero()),
    {
        let coeffs = band_coeffs(num_taps, f_min_norm, f_max_norm);
        let mut history: Vec<Cx> = Vec::new();
        for i in 0..num_taps - 1
            invariant
                history@.len() == i,
                forall|j: int| 0 <= j < i ==> history@[j] == Cx::spec_zero(),
        {
            history.push(Cx::zero());
        }
        let s = DecimationFilter { factor, phase: 0, history, coeffs };
        proof {
            assert(s.history@ =~= Seq::new((num_taps - 1) as nat, |i: int| Cx::spec_zero()));
        }
        s
    }

    /// Replace the passband in place; the history and the decimation phase
    /// are retained so the stream stays continuous.
    pub fn set_fir_bandpass(&mut self, f_min_norm: u32, f_max_norm: u32)
        requires
            old(self).wf(),
        ensures
            final(self).wf(),
            final(self).factor == old(self).factor,
            final(self).phase == old(self).phase,
            final(self).history == old(self).history,
            final(self).coeffs@.len() == old(self).coeffs@.len(),
            forall|i: int|
                0 <= i < final(self).coeffs@.len() ==> final(self).coeffs@[i] == fir_band_coeff(
                    old(self).coeffs@.len() as int,
                    f_min_norm,
                    f_max_norm,
                    i,
                ),
    {
        let num_taps = self.coeffs.len();
        self.coeffs = band_coeffs(num_taps, f_min_norm, f_max_norm);
    }

    /// Filter and downsample one block. The output holds the convolution at
    /// every emission grid point inside the block; afterwards the phase and
    /// the history carry the grid and the tap window into the next block.
    pub fn process(&mut self, input: &Vec<Cx>) -> (output: Vec<Cx>)
        requires
            old(self).wf(),
            input@.len() + old(self).factor <= usize::MAX,
        ensures
            final(self).wf(),
            final(self).factor == old(self).factor,
            final(self).coeffs == old(self).coeffs,
            final(self).phase == decim_next_phase(
                old(self).phase as int,
                old(self).factor as int,
                input@.len() as int,
            ),
            final(self).history@ == decim_next_hist(old(self).history@, input@),
            output@ == decim_outs(
                old(self).coeffs@,
                old(self).history@,
                old(self).phase as int,
                old(self).factor as int,
                input@,
            ),
    {
        let ghost virt = old(self).history@ + input@;
        let ghost f = old(self).factor as int;
        let ghost hl = old(self).history@.len() as int;
        if input.len() == 0 {
            proof {
                assert(old(self).history@ =~= decim_next_hist(old(self).history@, input@));
                assert(decim_next_phase(old(self).phase as int, f, 0) == old(self).phase as int)
                    by {
                    vstd::arithmetic::div_mod::lemma_small_mod(
                        old(self).phase as nat,
                        old(self).factor as nat,
                    );
                };
                assert(Seq::<Cx>::empty() =~= decim_outs(
                    old(self).coeffs@,
                    old(self).history@,
                    old(self).phase as int,
                    f,
                    input@,
                ));
            }
            return Vec::new();
        }
        let mut output: Vec<Cx> = Vec::new();
        let mut current_idx: usize = if self.phase == 0 {
            0
        } else {
            self.factor - self.phase
        };
        let ghost first = first_emit(old(self).phase as int, f);
        let ghost count = emit_count(input@.len() as int, first, f);
        while current_idx < input.len()
            invariant
                *self == *old(self),
                self.wf(),
                input@.len() + self.factor <= usize::MAX,
                input@.len() >= 1,
                first == first_emit(old(self).phase as int, f),
                f == self.factor as int,
                hl == self.history@.len() as int,
                virt == self.history@ + input@,
                current_idx as int == first + output@.len() * f,
                current_idx < input@.len() + self.factor,
                output@.len() > 0 ==> first + (output@.len() - 1) * f < input@.len(),
                forall|k: int|
                    0 <= k < output@.len() ==> output@[k] == conv_at(
                        self.coeffs@,
                        virt,
                        hl + first + k * f,
                    ),
            decreases input@.len() + self.factor - current_idx,
        {
            let mut acc = Cx::zero();
            let mut i: usize = 0;
            let taps = self.coeffs.len();
            while i < taps
                invariant
                    *self == *old(self),
                    self.wf(),
                    taps == self.coeffs@.len(),
                    i <= taps,
                    hl == self.history@.len() as int,
                    virt == self.history@ + input@,
                    current_idx < input@.len(),
                    acc == conv_pre(self.coeffs@, virt, hl + current_idx as int, i as nat),
                decreases taps - i,
            {
                let val = if current_idx >= i {
                    input[current_idx - i]
                } else {
                    let back = i - current_idx;
                    self.history[self.history.len() - back]
                };
                proof {
                    assert(val == virt[hl + current_idx - i]);
                }
                acc = crate::cpx::add(acc, crate::cpx::scale(val, self.coeffs[i]));
                i = i + 1;
            }
            output.push(acc);
            proof {
                assert((output@.len() - 1) * f == (output@.len() - 1) * f);
            }
            current_idx = current_idx + self.factor;
            proof {
                assert(current_idx as int == first + (output@.len() - 1) * f + f);
                assert(first + (output@.len() - 1) * f + f == first + output@.len() * f)
                    by (nonlinear_arith);
            }
        }
        proof {
            let m = output@.len() as int;
            if m == 0 {
                assert(first >= input@.len());
                assert(count == 0);
            } else {
                assert(first + (m - 1) * f < input@.len());
                assert(first <= first + (m - 1) * f) by (nonlinear_arith)
                    requires
                        m >= 1,
                        f >= 1,
                ;
                assert(first < input@.len());
                let d = input@.len() - first - 1;
                let r = d - (m - 1) * f;
                assert(first + m * f == first + (m - 1) * f + f) by (nonlinear_arith);
                assert(0 <= r < f);
                lemma_fundamental_div_mod_converse(d, f, m - 1, r);
                assert(count == m);
            }
            assert(output@ =~= decim_outs(
                old(self).coeffs@,
                old(self).history@,
                old(self).phase as int,
                f,
                input@,
            ));
        }
        let ghost ph2 = decim_next_phase(old(self).phase as int, f, input@.len() as int);
        self.phase = (self.phase + input.len()) % self.factor;
        proof {
            assert(self.phase as int == ph2);
        }
        let hist_len = self.history.len();
        if hist_len == 0 {
            proof {
                assert(self.history@ =~= decim_next_hist(old(self).history@, input@));
            }
            return output;
        }
        if input.len() >= hist_len {
            for j in 0..hist_len
                invariant
                    hist_len == self.history@.len(),
                    hist_len >= 1,
                    input@.len() >= hist_len,
                    self.phase as int == ph2,
                    self.factor == old(self).factor,
                    self.coeffs == old(self).coeffs,
                    forall|t: int| 0 <= t < j ==> self.history@[t] == input@[input@.len() - hist_len + t],
                    forall|t: int| j <= t < hist_len ==> self.history@[t] == old(self).history@[t],
            {
                self.history[j] = input[input.len() - hist_len + j];
            }
        } else {
            let shift = input.len();
            for j in 0..hist_len - shift
                invariant
                    hist_len == self.history@.len(),
                    1 <= shift < hist_len,
                    shift == input@.len(),
                    self.phase as int == ph2,
                    self.factor == old(self).factor,
                    self.coeffs == old(self).coeffs,
                    forall|t: int|
                        0 <= t < j ==> self.history@[t] == old(self).history@[t + shift],
                    forall|t: int|
                        j <= t < hist_len ==> self.history@[t] == old(self).history@[t],
            {
                self.history[j] = self.history[j + shift];
            }
            for j in 0..shift
                invariant
                    hist_len == self.history@.len(),
                    1 <= shift < hist_len,
                    shift == input@.len(),
                    self.phase as int == ph2,
                    self.factor == old(self).factor,
                    self.coeffs == old(self).coeffs,
                    forall|t: int|
                        0 <= t < hist_len - shift ==> self.history@[t] == old(self).history@[t
                            + shift],
                    forall|t: int|
                        0 <= t < j ==> self.history@[hist_len - shift + t] == input@[t],
            {
                self.history[hist_len - shift + j] = input[j];
            }
        }
        proof {
            assert(self.history@ =~= decim_next_hist(old(self).history@, input@));
        }
        output
    }
}

/// The bandpass taps: two normalized low-pass designs subtracted pointwise.
fn band_coeffs(num_taps: usize, f_min_norm: u32, f_max_norm: u32) -> (coeffs: Vec<u32>)
    requires
        num_taps >= 1,
    ensures
        coeffs@.len() == num_taps,
        forall|i: int|
            0 <= i < num_taps ==> coeffs@[i] == fir_band_coeff(
                num_taps as int,
                f_min_norm,
                f_max_norm,
                i,
            ),
{
    let hi = design_lpf(num_taps, f_max_norm);
    if !crate::fmath::gt32(f_min_norm, F32_ZERO) {
        return hi;
    }
    let lo = design_lpf(num_taps, f_min_norm);
    let mut coeffs: Vec<u32> = Vec::new();
    for i in 0..num_taps
        invariant
            f32_lt(F32_ZERO, f_min_norm),
            hi@.len() == num_taps,
            lo@.len() == num_taps,
            coeffs@.len() == i,
            forall|j: int| 0 <= j < num_taps ==> hi@[j] == fir_coeff(num_taps as int, f_max_norm, j),
            forall|j: int| 0 <= j < num_taps ==> lo@[j] == fir_coeff(num_taps as int, f_min_norm, j),
            forall|j: int|
                0 <= j < i ==> coeffs@[j] == fir_band_coeff(num_taps as int, f_min_norm, f_max_norm, j),
    {
        coeffs.push(sub32(hi[i], lo[i]));
    }
    coeffs
}

/// A block never yields more output samples than input samples.
pub proof fn lemma_emit_count_le_len(len: int, first: int, f: int)
    requires
        f >= 1,
        first >= 0,
        len >= 0,
    ensures
        0 <= emit_count(len, first, f) <= len,
{
    if first < len {
        let d = len - first - 1;
        vstd::arithmetic::div_mod::lemma_div_nonincreasing(d, f);
        vstd::arithmetic::div_mod::lemma_div_pos_is_pos(d, f);
    }
}

/// Convolutions agree whenever the windows they read agree.
proof fn lemma_conv_window(coeffs: Seq<u32>, v1: Seq<Cx>, p1: int, v2: Seq<Cx>, p2: int, k: nat)
    requires
        forall|u: int| p1 - k < u <= p1 ==> #[trigger] v1[u] == v2[u - p1 + p2],
    ensures
        conv_pre(coeffs, v1, p1, k) == conv_pre(coeffs, v2, p2, k),
    decreases k,
{
    if k > 0 {
        lemma_conv_window(coeffs, v1, p1, v2, p2, (k - 1) as nat);
    }
}

/// Where the emission grid stands after a block: the next grid point is at
/// most one factor beyond the block's end, and the last counted point lies
/// inside the block.
proof fn lemma_grid_next(first: int, f: int, l1: int)
    requires
        f >= 1,
        0 <= first < f,
        l1 >= 0,
    ensures
        ({
            let ca = emit_count(l1, first, f);
            &&& ca >= 0
            &&& first + ca * f >= l1
            &&& first + ca * f - l1 < f
            &&& ca > 0 ==> first + (ca - 1) * f < l1
        }),
{
    let ca = emit_count(l1, first, f);
    if first >= l1 {
        assert(ca == 0);
    } else {
        let d = l1 - first - 1;
        lemma_fundamental_div_mod(d, f);
        vstd::arithmetic::div_mod::lemma_mod_bound(d, f);
        let q = d / f;
        assert(ca == q + 1);
        assert((q + 1) * f == q * f + f) by (nonlinear_arith);
        assert(q * f == d - d % f);
        assert(first + ca * f == l1 - 1 - d % f + f);
        assert(first + ca * f - l1 < f);
        assert(first + ca * f >= l1);
        assert(first + (ca - 1) * f == l1 - 1 - d % f) by (nonlinear_arith)
            requires
                ca == q + 1,
                q * f == d - d % f,
                d == l1 - first - 1,
        ;
        assert(first + (ca - 1) * f < l1);
    }
}

/// The grid points of a concatenated block split into those of its parts.
proof fn lemma_count_split(first: int, f: int, l1: int, l2: int)
    requires
        f >= 1,
        0 <= first < f,
        l1 >= 0,
        l2 >= 0,
    ensures
        ({
            let ca = emit_count(l1, first, f);
            let first2 = first + ca * f - l1;
            emit_count(l1 + l2, first, f) == ca + emit_count(l2, first2, f)
        }),
{
    let ca = emit_count(l1, first, f);
    let first2 = first + ca * f - l1;
    lemma_grid_next(first, f, l1);
    if first >= l1 {
        assert(ca == 0);
        assert(first2 == first - l1);
        if first >= l1 + l2 {
            assert(first2 >= l2);
        } else {
            assert(emit_count(l1 + l2, first, f) == (l1 + l2 - first - 1) / f + 1);
            assert(l2 - first2 - 1 == l1 + l2 - first - 1);
        }
    } else {
        assert(ca >= 1);
        assert(first + (ca - 1) * f < l1);
        if first2 >= l2 {
            let x = l1 + l2 - first - 1;
            let r = x - (ca - 1) * f;
            assert((ca - 1) * f + f == ca * f) by (nonlinear_arith);
            assert(0 <= r < f);
            lemma_fundamental_div_mod_converse(x, f, ca - 1, r);
            assert(emit_count(l1 + l2, first, f) == ca);
            assert(emit_count(l2, first2, f) == 0);
        } else {
            let e = l2 - first2 - 1;
            assert(e >= 0);
            lemma_fundamental_div_mod(e, f);
            vstd::arithmetic::div_mod::lemma_mod_bound(e, f);
            let q = e / f;
            assert(e + ca * f == l1 + l2 - first - 1);
            assert((q + ca) * f + e % f == e + ca * f) by (nonlinear_arith)
                requires
                    q * f + e % f == e,
            ;
            lemma_fundamental_div_mod_converse(l1 + l2 - first - 1, f, q + ca, e % f);
            assert(emit_count(l1 + l2, first, f) == q + ca + 1);
            assert(emit_count(l2, first2, f) == q + 1);
        }
    }
}

/// The first grid point of the next block, computed from the carried phase,
/// continues the grid of this block.
proof fn lemma_next_first(phase: int, f: int, l1: int)
    requires
        f >= 1,
        0 <= phase < f,
        l1 >= 0,
    ensures
        ({
            let fe = first_emit(phase, f);
            let ca = emit_count(l1, fe, f);
            first_emit(decim_next_phase(phase, f, l1), f) == fe + ca * f - l1
        }),
{
    let fe = first_emit(phase, f);
    let ca = emit_count(l1, fe, f);
    let x = fe + ca * f - l1;
    lemma_grid_next(fe, f, l1);
    let p2 = (phase + l1) % f;
    lemma_fundamental_div_mod(phase + l1, f);
    vstd::arithmetic::div_mod::lemma_mod_bound(phase + l1, f);
    let q = (phase + l1) / f;
    assert(phase + l1 == f * q + p2);
    if phase == 0 {
        assert(x + p2 == (ca - q) * f) by (nonlinear_arith)
            requires
                fe == 0,
                x == fe + ca * f - l1,
                phase + l1 == f * q + p2,
                phase == 0,
        ;
    } else {
        assert(x + p2 == (1 + ca - q) * f) by (nonlinear_arith)
            requires
                fe == f - phase,
                x == fe + ca * f - l1,
                phase + l1 == f * q + p2,
        ;
    }
    let k = if phase == 0 { ca - q } else { 1 + ca - q };
    assert(x + p2 == k * f);
    if p2 == 0 {
        assert(x == k * f);
        assert(k == 0) by (nonlinear_arith)
            requires
                x == k * f,
                0 <= x < f,
                f >= 1,
        ;
        assert(x == 0) by (nonlinear_arith)
            requires
                x == k * f,
                k == 0,
        ;
        assert(first_emit(p2, f) == 0);
    } else {
        assert(k == 1) by (nonlinear_arith)
            requires
                x + p2 == k * f,
                0 <= x < f,
                0 < p2 < f,
                f >= 1,
        ;
        assert(x + p2 == f) by (nonlinear_arith)
            requires
                x + p2 == k * f,
                k == 1,
        ;
        assert(x == f - p2);
    }
}

/// Chunk invariance of the decimation filter: feeding two blocks in sequence
/// produces, sample for sample, what feeding their concatenation produces,
/// and carries the same history and phase out.
pub proof fn lemma_decimation_chunk_invariance(
    coeffs: Seq<u32>,
    hist: Seq<Cx>,
    phase: int,
    factor: int,
    a: Seq<Cx>,
    b: Seq<Cx>,
)
    requires
        factor >= 1,
        0 <= phase < factor,
        coeffs.len() >= 1,
        hist.len() == coeffs.len() - 1,
    ensures
        decim_outs(coeffs, hist, phase, factor, a + b) == decim_outs(coeffs, hist, phase, factor, a)
            + decim_outs(
            coeffs,
            decim_next_hist(hist, a),
            decim_next_phase(phase, factor, a.len() as int),
            factor,
            b,
        ),
        decim_next_hist(hist, a + b) == decim_next_hist(decim_next_hist(hist, a), b),
        decim_next_phase(phase, factor, (a + b).len() as int) == decim_next_phase(
            decim_next_phase(phase, factor, a.len() as int),
            factor,
            b.len() as int,
        ),
{
    let f = factor;
    let la = a.len() as int;
    let lb = b.len() as int;
    let hl = hist.len() as int;
    let fe = first_emit(phase, f);
    let ca = emit_count(la, fe, f);
    let cb_first = fe + ca * f - la;
    let phase2 = decim_next_phase(phase, f, la);
    let hist2 = decim_next_hist(hist, a);
    let v1 = hist + (a + b);
    let v2 = hist + a;
    let v3 = hist2 + b;

    // The carried phase continues the grid.
    vstd::arithmetic::div_mod::lemma_mod_bound(phase + la, f);
    lemma_next_first(phase, f, la);
    assert(first_emit(phase2, f) == cb_first);
    lemma_grid_next(fe, f, la);
    lemma_count_split(fe, f, la, lb);
    let cb = emit_count(lb, cb_first, f);
    let cw = emit_count(la + lb, fe, f);
    assert(cw == ca + cb);

    // The carried history window makes the second block's virtual buffer a
    // shifted copy of the tail of the whole one.
    assert(hist2.len() == hl);
    assert forall|i: int| 0 <= i < hl + lb implies #[trigger] v3[i] == v1[i + la] by {
        if i < hl {
            assert(v3[i] == (hist + a)[la + i]);
        }
    }

    // The state parts.
    assert(decim_next_hist(hist, a + b) =~= decim_next_hist(hist2, b));
    lemma_fundamental_div_mod(phase + la, f);
    let s = (phase + la) % f;
    lemma_fundamental_div_mod(s + lb, f);
    vstd::arithmetic::div_mod::lemma_mod_bound(s + lb, f);
    let q1 = (phase + la) / f;
    let q2 = (s + lb) / f;
    assert(phase + la + lb == f * (q1 + q2) + (s + lb) % f) by (nonlinear_arith)
        requires
            phase + la == f * q1 + s,
            s + lb == f * q2 + (s + lb) % f,
    ;
    lemma_fundamental_div_mod_converse(phase + la + lb, f, q1 + q2, (s + lb) % f);
    assert((a + b).len() == la + lb);
    assert(decim_next_phase(phase, f, la + lb) == decim_next_phase(phase2, f, lb));

    // The emitted samples.
    let whole = decim_outs(coeffs, hist, phase, f, a + b);
    let part1 = decim_outs(coeffs, hist, phase, f, a);
    let part2 = decim_outs(coeffs, hist2, phase2, f, b);
    assert(whole.len() == cw && part1.len() == ca && part2.len() == cb);
    assert forall|k: int| 0 <= k < cw implies whole[k] == (part1 + part2)[k] by {
        let taps = coeffs.len() as nat;
        if k < ca {
            let pos = hl + fe + k * f;
            assert(k * f <= (ca - 1) * f) by (nonlinear_arith)
                requires
                    k <= ca - 1,
                    f >= 1,
            ;
            assert(fe + k * f < la);
            assert(k * f >= 0) by (nonlinear_arith)
                requires
                    k >= 0,
                    f >= 1,
            ;
            assert forall|u: int| pos - taps < u <= pos implies #[trigger] v1[u] == v2[u - pos
                + pos] by {
                assert(0 <= u < hl + la);
                if u >= hl {
                    assert((a + b)[u - hl] == a[u - hl]);
                }
            }
            lemma_conv_window(coeffs, v1, pos, v2, pos, taps);
        } else {
            let j = k - ca;
            let pos2 = hl + cb_first + j * f;
            let pos1 = hl + fe + k * f;
            assert(pos1 == pos2 + la) by (nonlinear_arith)
                requires
                    pos1 == hl + fe + k * f,
                    pos2 == hl + cb_first + j * f,
                    cb_first == fe + ca * f - la,
                    k == ca + j,
            ;
            assert(j * f >= 0) by (nonlinear_arith)
                requires
                    j >= 0,
                    f >= 1,
            ;
            lemma_grid_next(cb_first, f, lb);
            assert(cb > 0);
            assert(j * f <= (cb - 1) * f) by (nonlinear_arith)
                requires
                    j <= cb - 1,
                    f >= 1,
            ;
            assert(cb_first + j * f < lb);
            assert forall|u: int| pos1 - taps < u <= pos1 implies #[trigger] v1[u] == v3[u - pos1
                + pos2] by {
                let i = u - pos1 + pos2;
                assert(0 <= i < hl + lb);
                assert(v3[i] == v1[i + la]);
                assert(i + la == u);
            }
            lemma_conv_window(coeffs, v1, pos1, v3, pos2, taps);
            assert((part1 + part2)[k] == part2[j]);
        }
    }
    assert(whole =~= part1 + part2);
}

} // verus!
