pub mod bits;
pub mod cpx;
pub mod dc;
pub mod demod;
pub mod fft;
pub mod filter;
pub mod fmath;
pub mod resample;

use vstd::prelude::*;

use crate::bits::{
    f32_cmp, f32_gt_zero, f32_is_zero, f32_lt, f32_max, f32_min, f32_neg, CMP_EQ, F32_049,
    F32_127_128, F32_128, F32_200, F32_4500, F32_DC_NOTCH_Q, F32_HALF, F32_HUNDRED, F32_NEG_120,
    F32_NEG_ONE, F32_ONE, F32_TWO_PI, F32_ZERO,
};
use crate::cpx::{cx_mul, Cx};
use crate::dc::{dc_out, dc_step, DcCanceller};
use crate::demod::{demod_run, nco_next_phase, nco_val, AMDemodulator, Nco};
use crate::fft::{fft_result_seq, is_pow2, usize_is_pow2, FFT};
use crate::filter::{decim_outs, fir_band_coeff, DecimationFilter};
use crate::fmath::{
    add32, clamp32, cos32, div32, f32_add, f32_clamp, f32_cos, f32_div, f32_mul, f32_of_i8, f32_of_usize,
    f32_round, f32_sub, f32_to_i8, f32_to_u32, ge32, gt32, i8_of_f32, i8_to_f32, le32, lt32,
    max32_nz, min32_nz, mul32, neg32, round32, sub32, u32_of_f32, usize_to_f32,
};
use crate::resample::Resampler;

verus! {

// The receiver: normalization, DC cancelling, mixing to baseband, bandpass
// decimation, AM demodulation and resampling of each incoming IQ block, with
// a dB spectrum slice of the block's head computed on the side.

/// Taps of the receiver's IF bandpass decimation filter.
pub const RECEIVER_FIR_TAPS: usize = 601;

/// The sanitized IF band: both edges clamped to be non-negative (an edge
/// that is not at least zero, a NaN included, becomes zero, exactly as the
/// maximum with 0.0 resolves), the lower edge dropped to zero when it leaves
/// the usable band, the upper edge kept above the lower one and inside the
/// usable band, and a default band when nothing else is left.
pub open spec fn spec_sanitize_if_band(min_hz: u32, max_hz: u32, dsr: u32) -> (u32, u32) {
    let max_allowed = f32_max(f32_mul(dsr, F32_049), F32_200);
    let min0 = if f32_lt(F32_ZERO, min_hz) || f32_cmp(min_hz, F32_ZERO) == CMP_EQ {
        min_hz
    } else {
        F32_ZERO
    };
    let max0 = if f32_lt(F32_ZERO, max_hz) || f32_cmp(max_hz, F32_ZERO) == CMP_EQ {
        max_hz
    } else {
        F32_ZERO
    };
    let min1 = if f32_lt(max_allowed, min0) || f32_cmp(min0, max_allowed) == CMP_EQ {
        F32_ZERO
    } else {
        min0
    };
    let max1 = if f32_lt(max0, min1) || f32_cmp(max0, min1) == CMP_EQ {
        f32_add(min1, F32_HUNDRED)
    } else {
        max0
    };
    let max2 = f32_min(max1, max_allowed);
    if f32_lt(max2, min1) || f32_cmp(max2, min1) == CMP_EQ {
        (F32_ZERO, f32_min(max_allowed, F32_4500))
    } else {
        (min1, max2)
    }
}

/// Keep a requested IF band inside what the decimated rate can carry.
pub fn sanitize_if_band(min_hz: u32, max_hz: u32, decimated_sample_rate: u32) -> (r: (u32, u32))
    ensures
        r == spec_sanitize_if_band(min_hz, max_hz, decimated_sample_rate),
{
    proof {
        assert(F32_200 & 0x7fff_ffff == 0x4348_0000u32 && F32_200 >> 31u32 == 0) by (bit_vector);
        assert(F32_4500 & 0x7fff_ffff == 0x458c_a000u32 && F32_4500 >> 31u32 == 0)
            by (bit_vector);
    }
    let max_allowed = max32_nz(mul32(decimated_sample_rate, F32_049), F32_200);
    let mut min = if ge32(min_hz, F32_ZERO) {
        min_hz
    } else {
        F32_ZERO
    };
    let mut max = if ge32(max_hz, F32_ZERO) {
        max_hz
    } else {
        F32_ZERO
    };
    if ge32(min, max_allowed) {
        min = F32_ZERO;
    }
    if le32(max, min) {
        max = add32(min, F32_HUNDRED);
    }
    proof {
        assert(!f32_is_zero(max_allowed));
        if f32_cmp(max, max_allowed) == CMP_EQ {
            crate::bits::lemma_f32_eq_same_bits(max_allowed, max);
        }
    }
    max = min32_nz(max, max_allowed);
    if le32(max, min) {
        min = F32_ZERO;
        max = min32_nz(max_allowed, F32_4500);
    }
    (min, max)
}

/// The sanitized spectrum view: the start bin pulled inside the transform
/// and the length clamped between one and what remains after the start.
pub open spec fn spec_sanitize_fft_view(fft_size: int, start_bin: int, visible_bins: int) -> (
    int,
    int,
) {
    let safe_start = if start_bin < fft_size - 1 {
        start_bin
    } else {
        fft_size - 1
    };
    let max_len = fft_size - safe_start;
    let safe_len = if visible_bins < 1 {
        1
    } else if visible_bins > max_len {
        max_len
    } else {
        visible_bins
    };
    (safe_start, safe_len)
}

/// Keep a requested spectrum view inside the transform.
pub fn sanitize_fft_view(fft_size: usize, start_bin: usize, visible_bins: usize) -> (r: (
    usize,
    usize,
))
    requires
        fft_size >= 1,
    ensures
        (r.0 as int, r.1 as int) == spec_sanitize_fft_view(
            fft_size as int,
            start_bin as int,
            visible_bins as int,
        ),
        r.0 <= fft_size - 1,
        1 <= r.1 <= fft_size - r.0,
{
    let safe_start = if start_bin < fft_size - 1 {
        start_bin
    } else {
        fft_size - 1
    };
    let max_len = fft_size - safe_start;
    let safe_len = if visible_bins < 1 {
        1
    } else if visible_bins > max_len {
        max_len
    } else {
        visible_bins
    };
    (safe_start, safe_len)
}

/// A baseband component re-quantized to a signed byte: clamped to the
/// representable range, scaled by 128, rounded, cast.
pub open spec fn spec_float_to_i8(sample: u32) -> i8 {
    i8_of_f32(f32_round(f32_mul(f32_clamp(sample, F32_NEG_ONE, F32_127_128), F32_128)))
}

/// Re-quantize one baseband component to a signed byte.
pub fn float_to_i8(sample: u32) -> (r: i8)
    ensures
        r == spec_float_to_i8(sample),
{
    let scaled = mul32(clamp32(sample, F32_NEG_ONE, F32_127_128), F32_128);
    f32_to_i8(round32(scaled))
}

/// One raw sample of an interleaved IQ block, both components normalized
/// by 128.
pub open spec fn raw_sample(iq: Seq<i8>, k: int) -> Cx {
    Cx {
        re: f32_div(f32_of_i8(iq[2 * k]), F32_128),
        im: f32_div(f32_of_i8(iq[2 * k + 1]), F32_128),
    }
}

/// The front of the pipeline run over the first k IQ pairs: the DC canceller
/// and oscillator states, the mixed baseband samples, and the selected
/// (possibly DC-cancelled, not yet mixed) samples that feed the staging
/// buffer.
pub open spec fn bb_run(dc: DcCanceller, nco: Nco, enabled: bool, iq: Seq<i8>, k: nat) -> (
    DcCanceller,
    Nco,
    Seq<Cx>,
    Seq<Cx>,
)
    decreases k,
{
    if k == 0 {
        (dc, nco, Seq::empty(), Seq::empty())
    } else {
        let prev = bb_run(dc, nco, enabled, iq, (k - 1) as nat);
        let raw = raw_sample(iq, k - 1);
        let sel = if enabled {
            dc_out(prev.0, raw)
        } else {
            raw
        };
        let mixed = cx_mul(sel, nco_val(prev.1));
        (
            dc_step(prev.0, raw),
            Nco { phase: nco_next_phase(prev.1), phase_inc: prev.1.phase_inc },
            prev.2 + seq![mixed],
            prev.3 + seq![sel],
        )
    }
}

/// A run of the pipeline front yields exactly one mixed and one selected
/// sample per IQ pair.
pub proof fn lemma_bb_run_len(dc: DcCanceller, nco: Nco, enabled: bool, iq: Seq<i8>, k: nat)
    ensures
        bb_run(dc, nco, enabled, iq, k).2.len() == k,
        bb_run(dc, nco, enabled, iq, k).3.len() == k,
    decreases k,
{
    if k > 0 {
        lemma_bb_run_len(dc, nco, enabled, iq, (k - 1) as nat);
    }
}

/// The staging buffer after the selected samples were re-quantized into its
/// head.
pub open spec fn staged_bytes(stage: Seq<i8>, sel: Seq<Cx>, upto: int) -> Seq<i8> {
    Seq::new(
        stage.len(),
        |t: int|
            if t < 2 * upto {
                if t % 2 == 0 {
                    spec_float_to_i8(sel[t / 2].re)
                } else {
                    spec_float_to_i8(sel[t / 2].im)
                }
            } else {
                stage[t]
            },
    )
}

/// The browser-facing receiver: the full AM signal chain and the spectrum
/// tap, with all scratch buffers owned and reused across blocks.
pub struct Receiver {
    /// IQ rate at the input, encoded.
    pub sample_rate: u32,
    /// Rate after decimation, encoded.
    pub decimated_sample_rate: u32,
    /// Sanitized lower IF edge in Hz, encoded.
    pub if_min_hz: u32,
    /// Sanitized upper IF edge in Hz, encoded.
    pub if_max_hz: u32,
    /// Whether the DC canceller output feeds the mixer.
    pub dc_cancel_enabled: bool,
    /// Whether the spectrum reads the processed head instead of the raw one.
    pub fft_use_processed: bool,
    /// First visible spectrum bin.
    pub fft_visible_start: usize,
    /// Number of visible spectrum bins.
    pub fft_visible_len: usize,
    /// The mixing oscillator.
    pub nco: Nco,
    /// The DC canceller.
    pub dc_canceller: DcCanceller,
    /// The IF bandpass decimator.
    pub filter: DecimationFilter,
    /// The AM demodulator.
    pub am_demod: AMDemodulator,
    /// The audio-rate resampler.
    pub resampler: Resampler,
    /// The spectrum transform.
    pub fft: FFT,
    /// Mixed baseband scratch.
    pub baseband_buffer: Vec<Cx>,
    /// Demodulated audio scratch at the decimated rate.
    pub am_buffer: Vec<u32>,
    /// Resampled audio scratch.
    pub audio_buffer: Vec<u32>,
    /// Full spectrum scratch.
    pub fft_buffer: Vec<u32>,
    /// Visible spectrum slice scratch.
    pub fft_visible_buffer: Vec<u32>,
    /// Re-quantized staging bytes for the processed spectrum path.
    pub fft_input_buffer: Vec<i8>,
}

impl Receiver {
    /// Structural soundness of the whole receiver.
    pub open spec fn wf(self) -> bool {
        &&& self.am_demod.wf()
        &&& self.filter.wf()
        &&& self.resampler.wf()
        &&& self.fft.wf()
        &&& self.fft_visible_start + self.fft_visible_len <= self.fft.n
        &&& self.fft_visible_len >= 1
        &&& self.fft_buffer@.len() == self.fft.n
        &&& self.fft_visible_buffer@.len() == self.fft_visible_len
        &&& self.fft_input_buffer@.len() == 2 * self.fft.n
    }

    /// What construction promises of every field, given the parameters.
    pub open spec fn built_from(
        self,
        sample_rate: u32,
        center_freq: u32,
        target_freq: u32,
        decimation_factor: usize,
        output_sample_rate: u32,
        fft_size: usize,
        fft_visible_start_bin: usize,
        fft_visible_bins: usize,
        if_min_hz: u32,
        if_max_hz: u32,
        dc_cancel_enabled: bool,
        fft_use_processed: bool,
    ) -> bool {
        let dsr = f32_div(sample_rate, f32_of_usize(decimation_factor));
        let band = spec_sanitize_if_band(if_min_hz, if_max_hz, dsr);
        let view = spec_sanitize_fft_view(
            fft_size as int,
            fft_visible_start_bin as int,
            fft_visible_bins as int,
        );
        &&& self.sample_rate == sample_rate
        &&& self.decimated_sample_rate == dsr
        &&& self.if_min_hz == band.0
        &&& self.if_max_hz == band.1
        &&& self.dc_cancel_enabled == dc_cancel_enabled
        &&& self.fft_use_processed == fft_use_processed
        &&& self.fft_visible_start as int == view.0
        &&& self.fft_visible_len as int == view.1
        &&& self.nco == (Nco {
            phase: F32_ZERO,
            phase_inc: crate::demod::nco_inc(
                f32_neg(f32_sub(target_freq, center_freq)),
                sample_rate,
            ),
        })
        &&& self.dc_canceller.stage1 == crate::dc::notch_new(
            crate::dc::dc_pole_radius(sample_rate, F32_DC_NOTCH_Q),
        )
        &&& self.dc_canceller.stage2 == self.dc_canceller.stage1
        &&& self.filter.factor == decimation_factor
        &&& self.filter.phase == 0
        &&& self.filter.coeffs@.len() == RECEIVER_FIR_TAPS
        &&& (forall|i: int|
            0 <= i < RECEIVER_FIR_TAPS ==> self.filter.coeffs@[i] == fir_band_coeff(
                RECEIVER_FIR_TAPS as int,
                f32_div(band.0, sample_rate),
                f32_div(band.1, sample_rate),
                i,
            ))
        &&& (forall|i: int|
            0 <= i < self.filter.history@.len() ==> self.filter.history@[i] == Cx::spec_zero())
        &&& self.am_demod.wf()
        &&& self.am_demod.carrier_estimate == F32_ZERO
        &&& self.am_demod.gain == F32_ZERO
        &&& self.resampler.source_rate == u32_of_f32(f32_round(dsr))
        &&& self.resampler.target_rate == u32_of_f32(f32_round(output_sample_rate))
        &&& self.resampler.phase == crate::bits::F64_ZERO
        &&& self.fft.n == fft_size
        &&& self.fft.smoothing_time_constant == F32_ZERO
        &&& (forall|i: int| 0 <= i < fft_size ==> self.fft.prev@[i] == F32_ZERO)
        &&& (forall|i: int|
            0 <= i < fft_size ==> self.fft.scaled_window@[i] == f32_mul(
                hann_coeff(fft_size as int, i),
                crate::fft::fft_scale(fft_size as int),
            ))
        &&& (forall|i: int| 0 <= i < self.fft.n ==> self.fft_buffer@[i] == F32_ZERO)
        &&& (forall|i: int|
            0 <= i < self.fft_visible_len ==> self.fft_visible_buffer@[i] == F32_NEG_120)
        &&& (forall|i: int| 0 <= i < 2 * fft_size ==> self.fft_input_buffer@[i] == 0i8)
        &&& self.baseband_buffer@.len() == 0
        &&& self.am_buffer@.len() == 0
        &&& self.audio_buffer@.len() == 0
    }

    /// Build a receiver. The IQ rate must be positive and the decimated and
    /// output rates must round to at least one hertz; the transform size must
    /// be a power of two.
    pub fn new(
        sample_rate: u32,
        center_freq: u32,
        target_freq: u32,
        decimation_factor: usize,
        output_sample_rate: u32,
        fft_size: usize,
        fft_visible_start_bin: usize,
        fft_visible_bins: usize,
        if_min_hz: u32,
        if_max_hz: u32,
        dc_cancel_enabled: bool,
        fft_use_processed: bool,
    ) -> (s: Receiver)
        requires
            decimation_factor >= 1,
            fft_size >= 1,
            is_pow2(fft_size as nat),
            fft_size * 2 <= usize::MAX,
            f32_gt_zero(sample_rate),
            u32_of_f32(f32_round(f32_div(sample_rate, f32_of_usize(decimation_factor)))) >= 1,
            u32_of_f32(f32_round(output_sample_rate)) >= 1,
        ensures
            s.wf(),
            s.built_from(
                sample_rate,
                center_freq,
                target_freq,
                decimation_factor,
                output_sample_rate,
                fft_size,
                fft_visible_start_bin,
                fft_visible_bins,
                if_min_hz,
                if_max_hz,
                dc_cancel_enabled,
                fft_use_processed,
            ),
    {
        let offset_hz = sub32(target_freq, center_freq);
        let decimated_sample_rate = div32(sample_rate, usize_to_f32(decimation_factor));
        let band = sanitize_if_band(if_min_hz, if_max_hz, decimated_sample_rate);
        let if_min = band.0;
        let if_max = band.1;
        let min_cutoff_norm = div32(if_min, sample_rate);
        let max_cutoff_norm = div32(if_max, sample_rate);
        let resampler = Resampler::new(
            f32_to_u32(round32(decimated_sample_rate)),
            f32_to_u32(round32(output_sample_rate)),
        );
        let window = hann_window(fft_size);
        let view = sanitize_fft_view(fft_size, fft_visible_start_bin, fft_visible_bins);
        let fft_visible_start = view.0;
        let fft_visible_len = view.1;
        proof {
            assert(F32_DC_NOTCH_Q & 0x7fff_ffff == 0x447a_0000u32 && F32_DC_NOTCH_Q >> 31u32 == 0)
                by (bit_vector);
            assert(F32_ONE & 0x7fff_ffff == 0x3f80_0000u32 && F32_ONE >> 31u32 == 0)
                by (bit_vector);
            assert(f32_lt(F32_ONE, F32_DC_NOTCH_Q));
        }
        let mut fft_buffer: Vec<u32> = Vec::new();
        let mut fft_input_buffer: Vec<i8> = Vec::new();
        for i in 0..fft_size
            invariant
                fft_size * 2 <= usize::MAX,
                fft_buffer@.len() == i,
                fft_input_buffer@.len() == 2 * i,
                forall|j: int| 0 <= j < i ==> fft_buffer@[j] == F32_ZERO,
                forall|j: int| 0 <= j < 2 * i ==> fft_input_buffer@[j] == 0i8,
        {
            fft_buffer.push(F32_ZERO);
            fft_input_buffer.push(0i8);
            fft_input_buffer.push(0i8);
        }
        let mut fft_visible_buffer: Vec<u32> = Vec::new();
        for i in 0..fft_visible_len
            invariant
                fft_visible_buffer@.len() == i,
                forall|j: int| 0 <= j < i ==> fft_visible_buffer@[j] == F32_NEG_120,
        {
            fft_visible_buffer.push(F32_NEG_120);
        }
        Receiver {
            sample_rate,
            decimated_sample_rate,
            if_min_hz: if_min,
            if_max_hz: if_max,
            dc_cancel_enabled,
            fft_use_processed,
            fft_visible_start,
            fft_visible_len,
            nco: Nco::new(neg32(offset_hz), sample_rate),
            dc_canceller: DcCanceller::new(sample_rate, F32_DC_NOTCH_Q),
            filter: DecimationFilter::new_fir_band(
                decimation_factor,
                RECEIVER_FIR_TAPS,
                min_cutoff_norm,
                max_cutoff_norm,
            ),
            am_demod: AMDemodulator::new(),
            resampler,
            fft: FFT::new(fft_size, &window),
            baseband_buffer: Vec::new(),
            am_buffer: Vec::new(),
            audio_buffer: Vec::new(),
            fft_buffer,
            fft_visible_buffer,
            fft_input_buffer,
        }
    }

    /// Build a receiver after checking at run time everything that
    /// construction needs, and return nothing when a check fails.
    pub fn try_new(
        sample_rate: u32,
        center_freq: u32,
        target_freq: u32,
        decimation_factor: usize,
        output_sample_rate: u32,
        fft_size: usize,
        fft_visible_start_bin: usize,
        fft_visible_bins: usize,
        if_min_hz: u32,
        if_max_hz: u32,
        dc_cancel_enabled: bool,
        fft_use_processed: bool,
    ) -> (r: Option<Receiver>)
        ensures
            r.is_some() == (decimation_factor >= 1 && fft_size >= 1 && is_pow2(fft_size as nat)
                && fft_size <= usize::MAX / 2 && f32_gt_zero(sample_rate) && u32_of_f32(
                f32_round(f32_div(sample_rate, f32_of_usize(decimation_factor))),
            ) >= 1 && u32_of_f32(f32_round(output_sample_rate)) >= 1),
            r.is_some() ==> r.unwrap().wf() && r.unwrap().built_from(
                sample_rate,
                center_freq,
                target_freq,
                decimation_factor,
                output_sample_rate,
                fft_size,
                fft_visible_start_bin,
                fft_visible_bins,
                if_min_hz,
                if_max_hz,
                dc_cancel_enabled,
                fft_use_processed,
            ),
    {
        if decimation_factor < 1 || fft_size < 1 || fft_size > usize::MAX / 2 {
            return None;
        }
        if !usize_is_pow2(fft_size) {
            return None;
        }
        if !gt32(sample_rate, F32_ZERO) {
            return None;
        }
        let dsr = div32(sample_rate, usize_to_f32(decimation_factor));
        if f32_to_u32(round32(dsr)) < 1 {
            return None;
        }
        if f32_to_u32(round32(output_sample_rate)) < 1 {
            return None;
        }
        Some(
            Receiver::new(
                sample_rate,
                center_freq,
                target_freq,
                decimation_factor,
                output_sample_rate,
                fft_size,
                fft_visible_start_bin,
                fft_visible_bins,
                if_min_hz,
                if_max_hz,
                dc_cancel_enabled,
                fft_use_processed,
            ),
        )
    }

    /// Retune: rebuild the oscillator at the new offset, with its phase back
    /// at zero.
    pub fn set_target_freq(&mut self, center_freq: u32, target_freq: u32)
        ensures
            *final(self) == (Receiver {
                nco: Nco {
                    phase: F32_ZERO,
                    phase_inc: crate::demod::nco_inc(
                        f32_neg(f32_sub(target_freq, center_freq)),
                        old(self).sample_rate,
                    ),
                },
                ..*old(self)
            }),
    {
        let offset_hz = sub32(target_freq, center_freq);
        self.nco = Nco::new(neg32(offset_hz), self.sample_rate);
    }

    /// Move the IF passband: the edges are sanitized, stored, and the filter
    /// taps are recomputed in place while the stream state is retained.
    pub fn set_if_band(&mut self, min_hz: u32, max_hz: u32)
        requires
            old(self).wf(),
        ensures
            final(self).wf(),
            ({
                let band = spec_sanitize_if_band(min_hz, max_hz, old(self).decimated_sample_rate);
                &&& final(self).if_min_hz == band.0
                &&& final(self).if_max_hz == band.1
                &&& final(self).filter.coeffs@.len() == old(self).filter.coeffs@.len()
                &&& (forall|i: int|
                    0 <= i < final(self).filter.coeffs@.len() ==> final(self).filter.coeffs@[i]
                        == fir_band_coeff(
                        old(self).filter.coeffs@.len() as int,
                        f32_div(band.0, old(self).sample_rate),
                        f32_div(band.1, old(self).sample_rate),
                        i,
                    ))
                &&& final(self).filter.history == old(self).filter.history
                &&& final(self).filter.phase == old(self).filter.phase
                &&& final(self).filter.factor == old(self).filter.factor
            }),
            *final(self) == (Receiver {
                if_min_hz: final(self).if_min_hz,
                if_max_hz: final(self).if_max_hz,
                filter: final(self).filter,
                ..*old(self)
            }),
    {
        let band = sanitize_if_band(min_hz, max_hz, self.decimated_sample_rate);
        self.if_min_hz = band.0;
        self.if_max_hz = band.1;
        let lo = div32(self.if_min_hz, self.sample_rate);
        let hi = div32(self.if_max_hz, self.sample_rate);
        self.filter.set_fir_bandpass(lo, hi);
    }

    /// Move the visible spectrum window. The slice buffer keeps its prefix
    /// and grows with the pre-transform fill value.
    pub fn set_fft_view(&mut self, start_bin: usize, visible_bins: usize)
        requires
            old(self).wf(),
        ensures
            final(self).wf(),
            ({
                let view = spec_sanitize_fft_view(
                    old(self).fft.n as int,
                    start_bin as int,
                    visible_bins as int,
                );
                &&& final(self).fft_visible_start as int == view.0
                &&& final(self).fft_visible_len as int == view.1
                &&& final(self).fft_visible_buffer@ == (if view.1 <= old(
                    self,
                ).fft_visible_buffer@.len() {
                    old(self).fft_visible_buffer@.subrange(0, view.1)
                } else {
                    old(self).fft_visible_buffer@ + Seq::new(
                        (view.1 - old(self).fft_visible_buffer@.len()) as nat,
                        |i: int| F32_NEG_120,
                    )
                })
            }),
            *final(self) == (Receiver {
                fft_visible_start: final(self).fft_visible_start,
                fft_visible_len: final(self).fft_visible_len,
                fft_visible_buffer: final(self).fft_visible_buffer,
                ..*old(self)
            }),
    {
        let n = self.fft.get_n();
        proof {
            assert(n >= 1);
        }
        let view = sanitize_fft_view(n, start_bin, visible_bins);
        self.fft_visible_start = view.0;
        self.fft_visible_len = view.1;
        let target = view.1;
        if target <= self.fft_visible_buffer.len() {
            self.fft_visible_buffer.truncate(target);
            proof {
                assert(self.fft_visible_buffer@ =~= old(self).fft_visible_buffer@.subrange(
                    0,
                    target as int,
                ));
            }
        } else {
            while self.fft_visible_buffer.len() < target
                invariant
                    old(self).fft_visible_buffer@.len() < target,
                    self.fft_visible_buffer@.len() <= target,
                    self.fft_visible_buffer@.len() >= old(self).fft_visible_buffer@.len(),
                    self.fft_visible_buffer@ == old(self).fft_visible_buffer@ + Seq::new(
                        (self.fft_visible_buffer@.len() - old(
                            self,
                        ).fft_visible_buffer@.len()) as nat,
                        |i: int| F32_NEG_120,
                    ),
                    self.sample_rate == old(self).sample_rate,
                    self.decimated_sample_rate == old(self).decimated_sample_rate,
                    self.if_min_hz == old(self).if_min_hz,
                    self.if_max_hz == old(self).if_max_hz,
                    self.dc_cancel_enabled == old(self).dc_cancel_enabled,
                    self.fft_use_processed == old(self).fft_use_processed,
                    self.fft_visible_start == view.0,
                    self.fft_visible_len == view.1,
                    self.nco == old(self).nco,
                    self.dc_canceller == old(self).dc_canceller,
                    self.filter == old(self).filter,
                    self.am_demod == old(self).am_demod,
                    self.resampler == old(self).resampler,
                    self.fft == old(self).fft,
                    self.baseband_buffer == old(self).baseband_buffer,
                    self.am_buffer == old(self).am_buffer,
                    self.audio_buffer == old(self).audio_buffer,
                    self.fft_buffer == old(self).fft_buffer,
                    self.fft_input_buffer == old(self).fft_input_buffer,
                decreases target - self.fft_visible_buffer@.len(),
            {
                self.fft_visible_buffer.push(F32_NEG_120);
                proof {
                    assert(self.fft_visible_buffer@ =~= old(self).fft_visible_buffer@ + Seq::new(
                        (self.fft_visible_buffer@.len() - old(
                            self,
                        ).fft_visible_buffer@.len()) as nat,
                        |i: int| F32_NEG_120,
                    ));
                }
            }
        }
    }

    /// Choose whether the mixer is fed the DC-cancelled samples.
    pub fn set_dc_cancel_enabled(&mut self, enabled: bool)
        ensures
            *final(self) == (Receiver { dc_cancel_enabled: enabled, ..*old(self) }),
    {
        self.dc_cancel_enabled = enabled;
    }

    /// Choose whether the spectrum reads the processed head.
    pub fn set_fft_use_processed(&mut self, enabled: bool)
        ensures
            *final(self) == (Receiver { fft_use_processed: enabled, ..*old(self) }),
    {
        self.fft_use_processed = enabled;
    }

    /// Process one block of interleaved IQ bytes: normalize and DC-cancel
    /// each pair, mix it down with the oscillator, bandpass-decimate,
    /// demodulate, resample to the audio rate, and transform the block's
    /// head (raw or processed, as configured) into the visible spectrum
    /// slice. Returns the audio samples and the visible slice, both encoded.
    pub fn process_am(&mut self, iq_data: &Vec<i8>) -> (out: (Vec<u32>, Vec<u32>))
        requires
            old(self).wf(),
            iq_data@.len() + old(self).filter.factor <= usize::MAX,
            iq_data@.len() <= isize::MAX - 64,
        ensures
            final(self).wf(),
            final(self).sample_rate == old(self).sample_rate,
            final(self).decimated_sample_rate == old(self).decimated_sample_rate,
            final(self).if_min_hz == old(self).if_min_hz,
            final(self).if_max_hz == old(self).if_max_hz,
            final(self).dc_cancel_enabled == old(self).dc_cancel_enabled,
            final(self).fft_use_processed == old(self).fft_use_processed,
            final(self).fft_visible_start == old(self).fft_visible_start,
            final(self).fft_visible_len == old(self).fft_visible_len,
            final(self).resampler.source_rate == old(self).resampler.source_rate,
            final(self).resampler.target_rate == old(self).resampler.target_rate,
            final(self).resampler.step == old(self).resampler.step,
            final(self).resampler.coeffs == old(self).resampler.coeffs,
            ({
                let ns = iq_data@.len() as int / 2;
                let bb = bb_run(
                    old(self).dc_canceller,
                    old(self).nco,
                    old(self).dc_cancel_enabled,
                    iq_data@,
                    ns as nat,
                );
                let dec = decim_outs(
                    old(self).filter.coeffs@,
                    old(self).filter.history@,
                    old(self).filter.phase as int,
                    old(self).filter.factor as int,
                    bb.2,
                );
                let am = demod_run(old(self).am_demod, dec);
                let n = old(self).fft.n as int;
                let staging = if old(self).fft_use_processed {
                    staged_bytes(old(self).fft_input_buffer@, bb.3, if ns < n { ns } else { n })
                } else if iq_data@.len() >= 2 * n {
                    Seq::new((2 * n) as nat, |t: int| iq_data@[t])
                } else {
                    old(self).fft_input_buffer@
                };
                let fft_ran = if old(self).fft_use_processed {
                    ns >= n
                } else {
                    iq_data@.len() >= 2 * n
                };
                let spectrum = if fft_ran {
                    fft_result_seq(
                        n as nat,
                        old(self).fft.smoothing_time_constant,
                        old(self).fft.scaled_window@,
                        old(self).fft.prev@,
                        staging,
                    )
                } else {
                    Seq::new(n as nat, |i: int| F32_NEG_120)
                };
                &&& final(self).dc_canceller == bb.0
                &&& final(self).nco == bb.1
                &&& final(self).baseband_buffer@ == bb.2
                &&& final(self).filter.coeffs == old(self).filter.coeffs
                &&& final(self).filter.factor == old(self).filter.factor
                &&& final(self).filter.phase as int == crate::filter::decim_next_phase(
                    old(self).filter.phase as int,
                    old(self).filter.factor as int,
                    bb.2.len() as int,
                )
                &&& final(self).filter.history@ == crate::filter::decim_next_hist(
                    old(self).filter.history@,
                    bb.2,
                )
                &&& final(self).am_demod == am.0
                &&& final(self).am_buffer@ == am.1
                &&& (am.1.len() == 0 ==> final(self).resampler == old(self).resampler && final(self).audio_buffer@
                    == Seq::<u32>::empty())
                &&& (am.1.len() > 0 ==> final(self).resampler.history@ == crate::resample::rs_next_hist(
                    old(self).resampler.history@,
                    am.1,
                ) && exists|k: nat|
                    {
                        let run = crate::resample::rs_run(
                            crate::resample::view_bank(old(self).resampler.coeffs@),
                            old(self).resampler.history@ + am.1,
                            am.1.len() as int,
                            old(self).resampler.step,
                            old(self).resampler.phase,
                            k,
                        );
                        &&& #[trigger] crate::resample::rs_run(
                            crate::resample::view_bank(old(self).resampler.coeffs@),
                            old(self).resampler.history@ + am.1,
                            am.1.len() as int,
                            old(self).resampler.step,
                            old(self).resampler.phase,
                            k,
                        ) == run
                        &&& (forall|j: nat|
                            j < k ==> crate::bits::f64_lt(
                                #[trigger] crate::resample::rs_run(
                                    crate::resample::view_bank(old(self).resampler.coeffs@),
                                    old(self).resampler.history@ + am.1,
                                    am.1.len() as int,
                                    old(self).resampler.step,
                                    old(self).resampler.phase,
                                    j,
                                ).0,
                                crate::resample::rs_limit(am.1.len() as int),
                            ))
                        &&& (!crate::bits::f64_lt(
                            run.0,
                            crate::resample::rs_limit(am.1.len() as int),
                        ) || k == usize::MAX)
                        &&& final(self).audio_buffer@ == run.1
                        &&& final(self).resampler.phase == crate::fmath::f64_sub(
                            run.0,
                            crate::fmath::f64_of_usize(am.1.len() as usize),
                        )
                    })
                &&& final(self).fft_input_buffer@ == staging
                &&& final(self).fft.n == old(self).fft.n
                &&& final(self).fft.smoothing_time_constant == old(
                    self,
                ).fft.smoothing_time_constant
                &&& final(self).fft.scaled_window@ == old(self).fft.scaled_window@
                &&& final(self).fft.prev@ == (if fft_ran {
                    crate::fft::fft_new_prev(
                        n as nat,
                        old(self).fft.smoothing_time_constant,
                        old(self).fft.scaled_window@,
                        old(self).fft.prev@,
                        staging,
                    )
                } else {
                    old(self).fft.prev@
                })
                &&& final(self).fft_buffer@ == spectrum
                &&& final(self).fft_visible_buffer@ == spectrum.subrange(
                    old(self).fft_visible_start as int,
                    old(self).fft_visible_start + old(self).fft_visible_len,
                )
                &&& out.0@ == final(self).audio_buffer@
                &&& out.1@ == final(self).fft_visible_buffer@
            }),
    {
        let ghost iq = iq_data@;
        let ghost dc0 = self.dc_canceller;
        let ghost nco0 = self.nco;
        let ghost en = self.dc_cancel_enabled;
        let ghost stage0 = self.fft_input_buffer@;
        let total = iq_data.len();
        let num_samples = total / 2;
        let fft_n = self.fft.get_n();
        let two_n = self.fft_input_buffer.len();
        proof {
            assert(two_n == 2 * self.fft.n);
        }
        self.baseband_buffer.clear();
        for k in 0..num_samples
            invariant
                self.wf(),
                iq == iq_data@,
                total == iq.len(),
                num_samples == total / 2,
                fft_n == self.fft.n,
                two_n == 2 * fft_n,
                en == self.dc_cancel_enabled,
                self.sample_rate == old(self).sample_rate,
                self.decimated_sample_rate == old(self).decimated_sample_rate,
                self.if_min_hz == old(self).if_min_hz,
                self.if_max_hz == old(self).if_max_hz,
                self.dc_cancel_enabled == old(self).dc_cancel_enabled,
                self.fft_use_processed == old(self).fft_use_processed,
                self.fft_visible_start == old(self).fft_visible_start,
                self.fft_visible_len == old(self).fft_visible_len,
                self.filter == old(self).filter,
                self.am_demod == old(self).am_demod,
                self.resampler == old(self).resampler,
                self.fft == old(self).fft,
                self.am_buffer == old(self).am_buffer,
                self.audio_buffer == old(self).audio_buffer,
                self.fft_buffer == old(self).fft_buffer,
                self.fft_visible_buffer == old(self).fft_visible_buffer,
                self.dc_canceller == bb_run(dc0, nco0, en, iq, k as nat).0,
                self.nco == bb_run(dc0, nco0, en, iq, k as nat).1,
                self.baseband_buffer@ == bb_run(dc0, nco0, en, iq, k as nat).2,
                self.baseband_buffer@.len() == k,
                stage0 == old(self).fft_input_buffer@,
                stage0.len() == two_n,
                self.fft_input_buffer@ == (if self.fft_use_processed {
                    staged_bytes(
                        stage0,
                        bb_run(dc0, nco0, en, iq, k as nat).3,
                        if k < fft_n {
                            k as int
                        } else {
                            fft_n as int
                        },
                    )
                } else {
                    stage0
                }),
        {
            proof {
                assert(2 * k + 1 < total);
            }
            let i_val = div32(i8_to_f32(iq_data[2 * k]), F32_128);
            let q_val = div32(i8_to_f32(iq_data[2 * k + 1]), F32_128);
            let raw = Cx { re: i_val, im: q_val };
            let dc_cancelled = self.dc_canceller.process(raw);
            let sample = if self.dc_cancel_enabled {
                dc_cancelled
            } else {
                raw
            };
            let nco_out = self.nco.step();
            self.baseband_buffer.push(crate::cpx::mul(sample, nco_out));
            let ghost sel_prev = bb_run(dc0, nco0, en, iq, k as nat).3;
            if self.fft_use_processed && k < fft_n {
                self.fft_input_buffer[2 * k] = float_to_i8(sample.re);
                self.fft_input_buffer[2 * k + 1] = float_to_i8(sample.im);
            }
            proof {
                let kk = (k + 1) as nat;
                assert(raw == raw_sample(iq, k as int));
                assert(self.baseband_buffer@ =~= bb_run(dc0, nco0, en, iq, kk).2);
                let sel = bb_run(dc0, nco0, en, iq, kk).3;
                assert(sel =~= sel_prev + seq![if en {
                    dc_out(bb_run(dc0, nco0, en, iq, k as nat).0, raw)
                } else {
                    raw
                }]);
                if self.fft_use_processed {
                    let upto_old: int = if k < fft_n {
                        k as int
                    } else {
                        fft_n as int
                    };
                    let upto_new: int = if k + 1 < fft_n {
                        k + 1
                    } else {
                        fft_n as int
                    };
                    lemma_bb_run_len(dc0, nco0, en, iq, (k + 1) as nat);
                    lemma_bb_run_len(dc0, nco0, en, iq, k as nat);
                    assert(sel.len() == k + 1);
                    assert forall|t: int|
                        0 <= t < stage0.len() implies #[trigger] self.fft_input_buffer@[t]
                        == staged_bytes(stage0, sel, upto_new)[t] by {
                        if t < 2 * upto_old {
                            assert(t / 2 < upto_old);
                            assert(sel[t / 2] == sel_prev[t / 2]);
                        } else if k < fft_n && t == 2 * k {
                            assert(t % 2 == 0 && t / 2 == k);
                            assert(sel[k as int] == sample);
                        } else if k < fft_n && t == 2 * k + 1 {
                            assert(t % 2 == 1 && t / 2 == k);
                            assert(sel[k as int] == sample);
                        } else {
                            assert(t >= 2 * upto_new);
                        }
                    }
                    assert(self.fft_input_buffer@ =~= staged_bytes(stage0, sel, upto_new));
                }
            }
        }
        proof {
            assert((iq.len() as int) / 2 == num_samples);
            vstd::arithmetic::div_mod::lemma_div_nonincreasing(total as int, 2);
            assert(num_samples <= total);
        }
        let decimated = self.filter.process(&self.baseband_buffer);
        proof {
            crate::filter::lemma_emit_count_le_len(
                self.baseband_buffer@.len() as int,
                crate::filter::first_emit(
                    old(self).filter.phase as int,
                    old(self).filter.factor as int,
                ),
                old(self).filter.factor as int,
            );
            assert(decimated@.len() <= num_samples);
        }
        fill_u32(&mut self.am_buffer, decimated.len(), F32_ZERO);
        self.am_demod.demodulate(&decimated, &mut self.am_buffer);
        proof {
            assert(self.am_buffer@.len() <= total);
        }
        self.audio_buffer.clear();
        self.resampler.process(&self.am_buffer, &mut self.audio_buffer);
        proof {
            assert(forall|s: Seq<u32>| #[trigger] (Seq::<u32>::empty() + s) =~= s);
        }
        fill_u32(&mut self.fft_buffer, fft_n, F32_NEG_120);
        if self.fft_use_processed {
            if num_samples >= fft_n {
                self.fft.fft(&self.fft_input_buffer, &mut self.fft_buffer);
            }
        } else if total >= two_n {
            overwrite_head_i8(&mut self.fft_input_buffer, iq_data);
            proof {
                assert(self.fft_input_buffer@ =~= Seq::new((2 * self.fft.n as int) as nat, |t: int| iq[t]));
            }
            self.fft.fft(&self.fft_input_buffer, &mut self.fft_buffer);
        }
        proof {
            if !(if self.fft_use_processed {
                num_samples >= fft_n
            } else {
                total >= two_n
            }) {
                assert(self.fft_buffer@ =~= Seq::new(
                    self.fft.n as nat,
                    |i: int| F32_NEG_120,
                ));
            }
        }
        copy_slice_u32(
            &mut self.fft_visible_buffer,
            &self.fft_buffer,
            self.fft_visible_start,
            self.fft_visible_len,
        );
        let audio_out = copy_u32(&self.audio_buffer);
        let spectrum_out = copy_u32(&self.fft_visible_buffer);
        (audio_out, spectrum_out)
    }

}

/// The Hann window of the given length, with the single-point window equal
/// to one.
pub open spec fn hann_coeff(n: int, i: int) -> u32 {
    if n == 1 {
        F32_ONE
    } else {
        f32_mul(
            F32_HALF,
            f32_sub(
                F32_ONE,
                f32_cos(
                    f32_div(
                        f32_mul(F32_TWO_PI, f32_of_usize(i as usize)),
                        f32_of_usize((n - 1) as usize),
                    ),
                ),
            ),
        )
    }
}

/// Compute the Hann window.
fn hann_window(n: usize) -> (w: Vec<u32>)
    requires
        n >= 1,
    ensures
        w@.len() == n,
        forall|i: int| 0 <= i < n ==> w@[i] == hann_coeff(n as int, i),
{
    let mut w: Vec<u32> = Vec::new();
    if n == 1 {
        w.push(F32_ONE);
        return w;
    }
    for i in 0..n
        invariant
            n >= 2,
            w@.len() == i,
            forall|j: int| 0 <= j < i ==> w@[j] == hann_coeff(n as int, j),
    {
        w.push(
            mul32(
                F32_HALF,
                sub32(
                    F32_ONE,
                    cos32(div32(mul32(F32_TWO_PI, usize_to_f32(i)), usize_to_f32(n - 1))),
                ),
            ),
        );
    }
    w
}


/// Replace a buffer's contents by the value repeated.
fn fill_u32(v: &mut Vec<u32>, n: usize, val: u32)
    ensures
        final(v)@ == Seq::new(n as nat, |i: int| val),
{
    v.clear();
    for i in 0..n
        invariant
            v@.len() == i,
            forall|j: int| 0 <= j < i ==> v@[j] == val,
        decreases n - i,
    {
        v.push(val);
    }
    proof {
        assert(v@ =~= Seq::new(n as nat, |i: int| val));
    }
}

/// Replace a buffer's contents by a slice of another buffer.
fn copy_slice_u32(dst: &mut Vec<u32>, src: &Vec<u32>, start: usize, len: usize)
    requires
        start + len <= src@.len(),
    ensures
        final(dst)@ == src@.subrange(start as int, start + len),
{
    let n = src.len();
    dst.clear();
    for j in 0..len
        invariant
            n == src@.len(),
            start + len <= n,
            dst@.len() == j,
            forall|t: int| 0 <= t < j ==> dst@[t] == src@[start + t],
        decreases len - j,
    {
        dst.push(src[start + j]);
    }
    proof {
        assert(dst@ =~= src@.subrange(start as int, start + len));
    }
}

/// A plain copy of a buffer.
fn copy_u32(src: &Vec<u32>) -> (out: Vec<u32>)
    ensures
        out@ == src@,
{
    let mut out: Vec<u32> = Vec::new();
    let n = src.len();
    for i in 0..n
        invariant
            n == src@.len(),
            out@.len() == i,
            forall|t: int| 0 <= t < i ==> out@[t] == src@[t],
        decreases n - i,
    {
        out.push(src[i]);
    }
    proof {
        assert(out@ =~= src@);
    }
    out
}

/// Overwrite a buffer in place with the head of another one of at least the
/// same length.
fn overwrite_head_i8(dst: &mut Vec<i8>, src: &Vec<i8>)
    requires
        old(dst)@.len() <= src@.len(),
    ensures
        final(dst)@ == src@.subrange(0, old(dst)@.len() as int),
{
    let n = dst.len();
    for t in 0..n
        invariant
            n == dst@.len(),
            n <= src@.len(),
            forall|j: int| 0 <= j < t ==> dst@[j] == src@[j],
        decreases n - t,
    {
        dst[t] = src[t];
    }
    proof {
        assert(dst@ =~= src@.subrange(0, n as int));
    }
}

} // verus!
