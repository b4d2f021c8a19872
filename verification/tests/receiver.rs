use hackrf_dsp::Receiver;
use hackrf_dsp::{float_to_i8, sanitize_fft_view, sanitize_if_band};

fn make_receiver(dc_cancel: bool, use_processed: bool) -> Receiver {
    Receiver::try_new(
        2_000_000.0f32.to_bits(),
        810_000.0f32.to_bits(),
        810_000.0f32.to_bits(),
        40,
        48_000.0f32.to_bits(),
        1024,
        0,
        1024,
        0.0f32.to_bits(),
        4_500.0f32.to_bits(),
        dc_cancel,
        use_processed,
    )
    .expect("a valid configuration must build")
}

#[test]
fn test_process_am_produces_audio_and_spectrum() {
    let mut rx = make_receiver(true, false);
    let block = 16_384usize;
    let mut iq = vec![0i8; 2 * block];
    for k in 0..block {
        let t = k as f32 / 2_000_000.0;
        let env = 40.0 * (1.0 + 0.5 * (2.0 * std::f32::consts::PI * 1_000.0 * t).cos());
        iq[2 * k] = env as i8;
        iq[2 * k + 1] = 0;
    }
    let (audio, spectrum) = rx.process_am(&iq);

    assert_eq!(spectrum.len(), 1024);
    for &bin in spectrum.iter() {
        let v = f32::from_bits(bin);
        assert!(v.is_finite() && v >= -100.0, "spectrum bin {} out of range", v);
    }
    // 16384 input samples decimated by 40 and resampled 50 kHz -> 48 kHz.
    let expected = 16_384 / 40 * 48_000 / 50_000;
    assert!(
        (audio.len() as isize - expected as isize).abs() <= 16,
        "audio length {} far from {}",
        audio.len(),
        expected
    );
    // The demodulator clips at 0.98; the resampler may overshoot slightly.
    for &s in audio.iter() {
        let v = f32::from_bits(s);
        assert!(v.is_finite() && v.abs() <= 1.2, "audio sample {} out of range", v);
    }
}

#[test]
fn test_process_am_is_chunk_consistent_in_length() {
    let mut rx_whole = make_receiver(true, false);
    let mut rx_chunks = make_receiver(true, false);
    let block = 8_192usize;
    let mut iq = vec![0i8; 2 * block];
    for k in 0..block {
        let t = k as f32 / 2_000_000.0;
        iq[2 * k] = (60.0 * (2.0 * std::f32::consts::PI * 2_000.0 * t).cos()) as i8;
        iq[2 * k + 1] = (60.0 * (2.0 * std::f32::consts::PI * 2_000.0 * t).sin()) as i8;
    }
    let (audio_whole, _) = rx_whole.process_am(&iq);

    let (a1, _) = rx_chunks.process_am(&iq[..2 * 4096].to_vec());
    let (a2, _) = rx_chunks.process_am(&iq[2 * 4096..].to_vec());

    let whole: Vec<f32> = audio_whole.iter().map(|&x| f32::from_bits(x)).collect();
    let mut chunked: Vec<f32> = a1.iter().map(|&x| f32::from_bits(x)).collect();
    chunked.extend(a2.iter().map(|&x| f32::from_bits(x)));

    assert!((whole.len() as isize - chunked.len() as isize).abs() <= 1);
    let min_len = whole.len().min(chunked.len());
    let max_err = whole[..min_len]
        .iter()
        .zip(chunked[..min_len].iter())
        .map(|(a, b)| (a - b).abs())
        .fold(0.0, f32::max);
    assert!(max_err < 5e-4, "chunked audio diverged: {}", max_err);
}

#[test]
fn test_try_new_rejects_bad_configuration() {
    let none = Receiver::try_new(
        2_000_000.0f32.to_bits(),
        0,
        0,
        40,
        48_000.0f32.to_bits(),
        1000,  // not a power of two
        0,
        8,
        0,
        0,
        false,
        false,
    );
    assert!(none.is_none());

    let none = Receiver::try_new(
        0.0f32.to_bits(),  // zero sample rate
        0,
        0,
        40,
        48_000.0f32.to_bits(),
        1024,
        0,
        8,
        0,
        0,
        false,
        false,
    );
    assert!(none.is_none());

    let none = Receiver::try_new(
        2_000_000.0f32.to_bits(),
        0,
        0,
        0,  // zero decimation factor
        48_000.0f32.to_bits(),
        1024,
        0,
        8,
        0,
        0,
        false,
        false,
    );
    assert!(none.is_none());
}

#[test]
fn test_setters_take_effect() {
    let mut rx = make_receiver(false, false);
    rx.set_dc_cancel_enabled(true);
    rx.set_fft_use_processed(true);
    rx.set_target_freq(810_000.0f32.to_bits(), 815_000.0f32.to_bits());
    rx.set_if_band(100.0f32.to_bits(), 4_000.0f32.to_bits());
    rx.set_fft_view(100, 200);

    let iq = vec![3i8; 2 * 4096];
    let (_, spectrum) = rx.process_am(&iq);
    assert_eq!(spectrum.len(), 200);
    // The processed path re-quantizes the DC-cancelled head and transforms
    // it, so the slice holds real dB values, not the fill.
    for &bin in spectrum.iter() {
        let v = f32::from_bits(bin);
        assert!(v.is_finite() && v >= -100.0);
    }
}

#[test]
fn test_spectrum_uses_raw_head_when_not_processed() {
    // With a DC-heavy raw block the raw-head spectrum (seen through the
    // receiver's Hann window) must have its maximum at the center bin.
    let mut rx = Receiver::try_new(
        2_000_000.0f32.to_bits(),
        0,
        0,
        40,
        48_000.0f32.to_bits(),
        8,
        0,
        8,
        0,
        4_500.0f32.to_bits(),
        false,
        false,
    )
    .unwrap();
    let mut iq = vec![0i8; 64];
    for k in 0..32 {
        iq[2 * k] = 64;
    }
    let (_, spectrum) = rx.process_am(&iq);
    let spec: Vec<f32> = spectrum.iter().map(|&x| f32::from_bits(x)).collect();
    let max_idx = spec
        .iter()
        .enumerate()
        .max_by(|a, b| a.1.partial_cmp(b.1).unwrap())
        .map(|(i, _)| i)
        .unwrap();
    assert_eq!(max_idx, 4);
    assert!(spec[4] > -30.0, "DC bin {} unexpectedly weak", spec[4]);
}

#[test]
fn test_short_block_leaves_spectrum_on_fill_value() {
    // A block shorter than the transform size leaves every visible bin at
    // the pre-transform fill of -120 dB.
    let mut rx = make_receiver(false, false);
    let iq = vec![5i8; 64];
    let (_, spectrum) = rx.process_am(&iq);
    for &bin in spectrum.iter() {
        assert_eq!(f32::from_bits(bin), -120.0);
    }
}

#[test]
fn test_sanitize_if_band_cases() {
    let dsr = 50_000.0f32.to_bits();
    // An ordinary band passes through unchanged.
    let (lo, hi) = sanitize_if_band(100.0f32.to_bits(), 4_000.0f32.to_bits(), dsr);
    assert_eq!(f32::from_bits(lo), 100.0);
    assert_eq!(f32::from_bits(hi), 4_000.0);
    // Negative edges clamp to zero, and an empty band is pushed open.
    let (lo, hi) = sanitize_if_band((-5.0f32).to_bits(), (-1.0f32).to_bits(), dsr);
    assert_eq!(f32::from_bits(lo), 0.0);
    assert_eq!(f32::from_bits(hi), 100.0);
    // A lower edge beyond the usable band falls back to zero.
    let (lo, hi) = sanitize_if_band(40_000.0f32.to_bits(), 45_000.0f32.to_bits(), dsr);
    assert_eq!(f32::from_bits(lo), 0.0);
    assert_eq!(f32::from_bits(hi), 24_500.0);
    // An upper edge above the usable band is clamped to it.
    let (lo, hi) = sanitize_if_band(1_000.0f32.to_bits(), 30_000.0f32.to_bits(), dsr);
    assert_eq!(f32::from_bits(lo), 1_000.0);
    assert_eq!(f32::from_bits(hi), 24_500.0);
    // NaN edges are flushed to zero like any edge that is not at least zero,
    // so a default band comes back instead of a NaN flowing into the filter.
    let (lo, hi) = sanitize_if_band(f32::NAN.to_bits(), 0.0f32.to_bits(), dsr);
    assert_eq!(f32::from_bits(lo), 0.0);
    assert_eq!(f32::from_bits(hi), 100.0);
    let (lo, hi) = sanitize_if_band(100.0f32.to_bits(), f32::NAN.to_bits(), dsr);
    assert_eq!(f32::from_bits(lo), 100.0);
    assert_eq!(f32::from_bits(hi), 200.0);
}

#[test]
fn test_sanitize_fft_view_cases() {
    assert_eq!(sanitize_fft_view(1024, 0, 1024), (0, 1024));
    assert_eq!(sanitize_fft_view(1024, 2000, 50), (1023, 1));
    assert_eq!(sanitize_fft_view(1024, 1000, 500), (1000, 24));
    assert_eq!(sanitize_fft_view(1024, 10, 0), (10, 1));
}

#[test]
fn test_float_to_i8_quantization() {
    assert_eq!(float_to_i8(0.0f32.to_bits()), 0);
    assert_eq!(float_to_i8(1.0f32.to_bits()), 127);
    assert_eq!(float_to_i8((-1.0f32).to_bits()), -128);
    assert_eq!(float_to_i8(2.5f32.to_bits()), 127);
    assert_eq!(float_to_i8((-7.25f32).to_bits()), -128);
    assert_eq!(float_to_i8(0.25f32.to_bits()), 32);
    assert_eq!(float_to_i8((0.1f32).to_bits()), 13);
}
