use vstd::prelude::*;

use crate::bits::{
    f32_is_finite, f32_is_nan, f32_lt, f32_max, f32_sign, F32_128, F32_DB_FLOOR, F32_NEG_ZERO,
    F32_ONE, F32_TEN, F32_ZERO,
};
use crate::cpx::{cx_scale, f32_hypot, fft_of, Cx};
use crate::fmath::{
    add32, div32, f32_add, f32_div, f32_log10, f32_mul, f32_of_i8, f32_of_usize, f32_sub, gt32,
    i8_to_f32, log10_32, max32_nz, mul32, sub32, usize_to_f32,
};

verus! {

// Windowed forward FFT of interleaved 8-bit IQ samples, with the
// zero-frequency bin moved to the middle, optional exponential smoothing
// across calls, and conversion to decibels floored at -100 dB.

/// The length is a power of two.
pub open spec fn is_pow2(n: nat) -> bool
    decreases n,
{
    if n == 0 {
        false
    } else if n == 1 {
        true
    } else {
        n % 2 == 0 && is_pow2(n / 2)
    }
}

/// Whether a block length is a power of two.
pub fn usize_is_pow2(n: usize) -> (r: bool)
    ensures
        r == is_pow2(n as nat),
{
    if n == 0 {
        return false;
    }
    let mut m = n;
    while m % 2 == 0
        invariant
            m >= 1,
            is_pow2(n as nat) == is_pow2(m as nat),
        decreases m,
    {
        m = m / 2;
    }
    m == 1
}

/// The scale folded into the window: 1 / (128 n), normalizing the 8-bit
/// samples and the transform magnitude at once.
pub open spec fn fft_scale(n: int) -> u32 {
    f32_div(F32_ONE, f32_mul(F32_128, f32_of_usize(n as usize)))
}

/// The transform input: each IQ pair scaled by its window coefficient.
pub open spec fn fft_scratch(sw: Seq<u32>, input: Seq<i8>) -> Seq<Cx> {
    Seq::new(
        sw.len(),
        |i: int|
            cx_scale(Cx { re: f32_of_i8(input[2 * i]), im: f32_of_i8(input[2 * i + 1]) }, sw[i]),
    )
}

/// Where output bin i reads in the unshifted transform: the classic swap of
/// the two halves that centers the zero-frequency bin.
pub open spec fn fft_src(i: int, n: int) -> int {
    if i < n / 2 {
        i + n / 2
    } else {
        i - n / 2
    }
}

/// The shifted magnitude of each output bin.
pub open spec fn fft_mags(sw: Seq<u32>, input: Seq<i8>, n: nat) -> Seq<u32> {
    Seq::new(
        n,
        |i: int|
            f32_hypot(
                fft_of(fft_scratch(sw, input))[fft_src(i, n as int)].re,
                fft_of(fft_scratch(sw, input))[fft_src(i, n as int)].im,
            ),
    )
}

/// One bin after smoothing: the exponential moving average when the time
/// constant is positive, the raw magnitude otherwise.
pub open spec fn fft_smoothed(alpha: u32, prev: Seq<u32>, mags: Seq<u32>, i: int) -> u32 {
    if f32_lt(F32_ZERO, alpha) {
        f32_add(f32_mul(alpha, prev[i]), f32_mul(f32_sub(F32_ONE, alpha), mags[i]))
    } else {
        mags[i]
    }
}

/// A magnitude in decibels, floored so the result stays finite:
/// 10 log10(max(x, 1e-10)).
pub open spec fn db_of(x: u32) -> u32 {
    f32_mul(f32_log10(f32_max(x, F32_DB_FLOOR)), F32_TEN)
}

/// The full spectrum slice one call produces.
pub open spec fn fft_result_seq(
    n: nat,
    alpha: u32,
    sw: Seq<u32>,
    prev: Seq<u32>,
    input: Seq<i8>,
) -> Seq<u32> {
    Seq::new(n, |i: int| db_of(fft_smoothed(alpha, prev, fft_mags(sw, input, n), i)))
}

/// The smoothing state after one call.
pub open spec fn fft_new_prev(
    n: nat,
    alpha: u32,
    sw: Seq<u32>,
    prev: Seq<u32>,
    input: Seq<i8>,
) -> Seq<u32> {
    if f32_lt(F32_ZERO, alpha) {
        Seq::new(n, |i: int| fft_smoothed(alpha, prev, fft_mags(sw, input, n), i))
    } else {
        prev
    }
}

/// The held state and the incoming magnitudes are ordinary non-negative
/// finite values, as every real signal produces.
pub open spec fn fft_tame(prev: Seq<u32>, mags: Seq<u32>, n: nat) -> bool {
    forall|i: int|
        0 <= i < n ==> !f32_is_nan(#[trigger] prev[i]) && prev[i] != F32_NEG_ZERO && f32_is_finite(
            #[trigger] mags[i],
        ) && f32_sign(mags[i]) == 0
}

/// Windowed FFT processor with smoothing state.
pub struct FFT {
    /// Transform size, a power of two.
    pub n: usize,
    /// Smoothing time constant; zero disables smoothing.
    pub smoothing_time_constant: u32,
    /// Smoothed magnitudes of the previous call.
    pub prev: Vec<u32>,
    /// Scratch buffer for the in-place transform.
    pub buffer: Vec<Cx>,
    /// Window with the 1/(128 n) scale folded in.
    pub scaled_window: Vec<u32>,
}

impl FFT {
    /// Structural soundness: a power-of-two size and matching buffers.
    pub open spec fn wf(self) -> bool {
        &&& self.n >= 1
        &&& is_pow2(self.n as nat)
        &&& self.prev@.len() == self.n
        &&& self.buffer@.len() == self.n
        &&& self.scaled_window@.len() == self.n
    }

    /// Build a processor of the given power-of-two size with the given
    /// window, which must have exactly that length.
    pub fn new(n: usize, window_: &Vec<u32>) -> (s: FFT)
        requires
            n >= 1,
            is_pow2(n as nat),
            window_@.len() == n,
        ensures
            s.wf(),
            s.n == n,
            s.smoothing_time_constant == F32_ZERO,
            s.prev@ == Seq::new(n as nat, |i: int| F32_ZERO),
            s.scaled_window@ == Seq::new(n as nat, |i: int| f32_mul(window_@[i], fft_scale(n as int))),
    {
        let scale = div32(F32_ONE, mul32(F32_128, usize_to_f32(n)));
        let mut scaled_window: Vec<u32> = Vec::new();
        let mut prev: Vec<u32> = Vec::new();
        let mut buffer: Vec<Cx> = Vec::new();
        for i in 0..n
            invariant
                scale == fft_scale(n as int),
                window_@.len() == n,
                scaled_window@.len() == i,
                prev@.len() == i,
                buffer@.len() == i,
                forall|j: int| 0 <= j < i ==> scaled_window@[j] == f32_mul(window_@[j], fft_scale(n as int)),
                forall|j: int| 0 <= j < i ==> prev@[j] == F32_ZERO,
        {
            scaled_window.push(mul32(window_[i], scale));
            prev.push(F32_ZERO);
            buffer.push(Cx::zero());
        }
        let s = FFT { n, smoothing_time_constant: F32_ZERO, prev, buffer, scaled_window };
        proof {
            assert(s.prev@ =~= Seq::new(n as nat, |i: int| F32_ZERO));
            assert(s.scaled_window@ =~= Seq::new(
                n as nat,
                |i: int| f32_mul(window_@[i], fft_scale(n as int)),
            ));
        }
        s
    }

    /// Replace the smoothing time constant.
    pub fn set_smoothing_time_constant(&mut self, val: u32)
        ensures
            *final(self) == (FFT { smoothing_time_constant: val, ..*old(self) }),
    {
        self.smoothing_time_constant = val;
    }

    /// The transform size.
    pub fn get_n(&self) -> (r: usize)
        ensures
            r == self.n,
    {
        self.n
    }

    /// Transform one block of interleaved IQ bytes into the dB spectrum
    /// slice: scale and window, transform in place, center the
    /// zero-frequency bin, smooth against the previous call, floor and
    /// convert to dB.
    ///
    /// With the time constant at one and ordinary finite data, the smoothing
    /// holds the previous state exactly, so a second call returns the first
    /// call's output unchanged.
    pub fn fft(&mut self, input_: &Vec<i8>, result: &mut Vec<u32>)
        requires
            old(self).wf(),
            input_@.len() == 2 * old(self).n,
            old(result)@.len() == old(self).n,
        ensures
            final(self).wf(),
            final(self).n == old(self).n,
            final(self).smoothing_time_constant == old(self).smoothing_time_constant,
            final(self).scaled_window@ == old(self).scaled_window@,
            final(result)@ == fft_result_seq(
                old(self).n as nat,
                old(self).smoothing_time_constant,
                old(self).scaled_window@,
                old(self).prev@,
                input_@,
            ),
            final(self).prev@ == fft_new_prev(
                old(self).n as nat,
                old(self).smoothing_time_constant,
                old(self).scaled_window@,
                old(self).prev@,
                input_@,
            ),
            old(self).smoothing_time_constant == F32_ONE && fft_tame(
                old(self).prev@,
                fft_mags(old(self).scaled_window@, input_@, old(self).n as nat),
                old(self).n as nat,
            ) ==> final(self).prev@ == old(self).prev@ && final(result)@ == Seq::new(
                old(self).n as nat,
                |i: int| db_of(old(self).prev@[i]),
            ),
    {
        let n = self.n;
        let ghost sw = self.scaled_window@;
        let ghost prev0 = self.prev@;
        let ghost alpha0 = self.smoothing_time_constant;
        let ghost mags = fft_mags(sw, input_@, n as nat);
        let total = input_.len();
        self.buffer.clear();
        for i in 0..n
            invariant
                self.n == n,
                self.prev@ == prev0,
                prev0.len() == n,
                self.smoothing_time_constant == alpha0,
                self.scaled_window@ == sw,
                self.scaled_window@.len() == n,
                is_pow2(n as nat),
                n >= 1,
                input_@.len() == 2 * n,
                total == input_@.len(),
                self.buffer@.len() == i,
                forall|j: int| 0 <= j < i ==> self.buffer@[j] == fft_scratch(sw, input_@)[j],
        {
            proof {
                assert(2 * i + 1 < total);
            }
            let re = i8_to_f32(input_[2 * i]);
            let im = i8_to_f32(input_[2 * i + 1]);
            self.buffer.push(crate::cpx::scale(Cx { re, im }, self.scaled_window[i]));
        }
        proof {
            assert(self.buffer@ =~= fft_scratch(sw, input_@));
        }
        crate::cpx::fft_in_place(&mut self.buffer);
        let half_n = n / 2;
        let alpha = self.smoothing_time_constant;
        let inv_alpha = sub32(F32_ONE, alpha);
        let alpha_pos = gt32(alpha, F32_ZERO);
        let ghost tame = alpha0 == F32_ONE && fft_tame(prev0, mags, n as nat);
        result.clear();
        proof {
            assert(F32_ZERO & 0x7fff_ffff == 0 && F32_ZERO >> 31u32 == 0) by (bit_vector);
            assert(F32_ONE & 0x7fff_ffff == 0x3f80_0000u32 && F32_ONE >> 31u32 == 0)
                by (bit_vector);
            assert(F32_DB_FLOOR & 0x7fff_ffff != 0) by (bit_vector);
            assert(f32_lt(F32_ZERO, F32_ONE));
            assert(f32_is_finite(F32_ONE));
        }
        for i in 0..n
            invariant
                self.wf(),
                self.n == n,
                self.scaled_window@ == sw,
                self.smoothing_time_constant == alpha0,
                alpha == alpha0,
                inv_alpha == f32_sub(F32_ONE, alpha0),
                alpha_pos == f32_lt(F32_ZERO, alpha0),
                half_n == n / 2,
                self.buffer@ == fft_of(fft_scratch(sw, input_@)),
                mags == fft_mags(sw, input_@, n as nat),
                prev0.len() == n,
                tame == (alpha0 == F32_ONE && fft_tame(prev0, mags, n as nat)),
                f32_lt(F32_ZERO, F32_ONE),
                tame ==> inv_alpha == F32_ZERO,
                result@.len() == i,
                forall|j: int|
                    0 <= j < i ==> result@[j] == db_of(fft_smoothed(alpha0, prev0, mags, j)),
                forall|j: int|
                    i <= j < n ==> self.prev@[j] == prev0[j],
                forall|j: int|
                    0 <= j < i ==> self.prev@[j] == (if f32_lt(F32_ZERO, alpha0) {
                        fft_smoothed(alpha0, prev0, mags, j)
                    } else {
                        prev0[j]
                    }),
                tame ==> forall|j: int|
                    0 <= j < i ==> fft_smoothed(alpha0, prev0, mags, j) == prev0[j],
        {
            let src_idx = if i < half_n {
                i + half_n
            } else {
                i - half_n
            };
            proof {
                assert(src_idx == fft_src(i as int, n as int));
            }
            let magnitude = crate::cpx::norm(self.buffer[src_idx]);
            proof {
                assert(magnitude == mags[i as int]);
            }
            let smoothed = if alpha_pos {
                let s = add32(mul32(alpha, self.prev[i]), mul32(inv_alpha, magnitude));
                proof {
                    if tame {
                        assert(self.prev@[i as int] == prev0[i as int]);
                        assert(s == prev0[i as int]);
                    }
                }
                self.prev[i] = s;
                s
            } else {
                magnitude
            };
            proof {
                assert(smoothed == fft_smoothed(alpha0, prev0, mags, i as int));
                assert(F32_DB_FLOOR & 0x7fff_ffff != 0) by (bit_vector);
            }
            let floored = max32_nz(smoothed, F32_DB_FLOOR);
            result.push(mul32(log10_32(floored), F32_TEN));
        }
        proof {
            assert(final(result)@ =~= fft_result_seq(n as nat, alpha0, sw, prev0, input_@));
            if f32_lt(F32_ZERO, alpha0) {
                assert(self.prev@ =~= fft_new_prev(n as nat, alpha0, sw, prev0, input_@));
            } else {
                assert(self.prev@ =~= prev0);
            }
            if tame {
                assert(f32_lt(F32_ZERO, F32_ONE));
                assert(self.prev@ =~= prev0);
                assert(final(result)@ =~= Seq::new(n as nat, |i: int| db_of(prev0[i])));
            }
        }
    }
}

/// With the smoothing constant at zero, a call passes the magnitudes through
/// and leaves the held state alone: a second call on the same input returns
/// exactly the same slice.
pub proof fn lemma_fft_smoothing_passthrough(
    n: nat,
    sw: Seq<u32>,
    prev: Seq<u32>,
    input: Seq<i8>,
)
    ensures
        fft_new_prev(n, F32_ZERO, sw, prev, input) == prev,
        fft_result_seq(n, F32_ZERO, sw, fft_new_prev(n, F32_ZERO, sw, prev, input), input)
            == fft_result_seq(n, F32_ZERO, sw, prev, input),
{
    assert(F32_ZERO & 0x7fff_ffff == 0) by (bit_vector);
    assert(!f32_lt(F32_ZERO, F32_ZERO));
}

} // verus!
