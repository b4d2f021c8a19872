use hackrf_dsp::resample::Resampler;
use rustfft::num_complex::Complex;
use std::f32::consts::PI;

fn dominant_frequency(samples: &[f32], sample_rate: u32) -> f32 {
    let n = samples.len();
    let mut planner = rustfft::FftPlanner::new();
    let fft = planner.plan_fft_forward(n);

    let mut complex_buffer: Vec<Complex<f32>> =
        samples.iter().map(|&val| Complex::new(val, 0.0)).collect();
    fft.process(&mut complex_buffer);

    let mut max_magnitude = 0.0;
    let mut peak_index = 0;
    for (i, val) in complex_buffer.iter().enumerate().take(n / 2).skip(1) {
        let magnitude = val.norm();
        if magnitude > max_magnitude {
            max_magnitude = magnitude;
            peak_index = i;
        }
    }

    (peak_index as f32 * sample_rate as f32) / n as f32
}

fn check_resampling_sine_wave(source_rate: u32, target_rate: u32, test_freq: f32, duration_sec: f32) {
    let num_samples_in = (source_rate as f32 * duration_sec).ceil() as usize;

    let mut input = Vec::with_capacity(num_samples_in);
    for i in 0..num_samples_in {
        let t = i as f32 / source_rate as f32;
        let val = (2.0 * PI * test_freq * t).sin();
        input.push(val.to_bits());
    }

    let mut resampler = Resampler::new(source_rate, target_rate);
    let mut output_bits: Vec<u32> = Vec::new();
    resampler.process(&input, &mut output_bits);
    let output: Vec<f32> = output_bits.iter().map(|&x| f32::from_bits(x)).collect();

    let output_len = output.len();
    assert!(output_len > 0, "Output should not be empty");

    let detected_freq = dominant_frequency(&output, target_rate);

    let freq_resolution = target_rate as f32 / output_len as f32;
    let tolerance = freq_resolution;

    assert!(
        (detected_freq - test_freq).abs() <= tolerance,
        "Frequency mismatch! Expected ~{} Hz, detected ~{} Hz (Source rate: {}, Target rate: {}, Resolution: {})",
        test_freq,
        detected_freq,
        source_rate,
        target_rate,
        freq_resolution
    );
}

#[test]
fn test_downsampling_preserves_frequency() {
    check_resampling_sine_wave(50_000, 48_000, 1_000.0, 0.5);
}

#[test]
fn test_upsampling_preserves_frequency() {
    check_resampling_sine_wave(44_100, 48_000, 4_000.0, 0.5);
}

#[test]
fn test_continuous_processing() {
    let source_rate = 10_000;
    let target_rate = 8_000;
    let mut resampler_chunks = Resampler::new(source_rate, target_rate);
    let mut resampler_whole = Resampler::new(source_rate, target_rate);

    let input: Vec<u32> = (0..4_000)
        .map(|i| {
            let t = i as f32 / source_rate as f32;
            ((2.0 * PI * 410.0 * t).sin() + 0.3 * (2.0 * PI * 1200.0 * t).sin()).to_bits()
        })
        .collect();

    let mut out_chunks_bits: Vec<u32> = Vec::new();
    for chunk in input.chunks(137) {
        let chunk_vec: Vec<u32> = chunk.to_vec();
        resampler_chunks.process(&chunk_vec, &mut out_chunks_bits);
    }
    let out_chunks: Vec<f32> = out_chunks_bits.iter().map(|&x| f32::from_bits(x)).collect();

    let mut out_whole_bits: Vec<u32> = Vec::new();
    resampler_whole.process(&input, &mut out_whole_bits);
    let out_whole: Vec<f32> = out_whole_bits.iter().map(|&x| f32::from_bits(x)).collect();

    assert!((out_chunks.len() as isize - out_whole.len() as isize).abs() <= 1);

    let min_len = out_chunks.len().min(out_whole.len());
    let rmse = (out_chunks[..min_len]
        .iter()
        .zip(out_whole[..min_len].iter())
        .map(|(a, b)| {
            let d = a - b;
            d * d
        })
        .sum::<f32>()
        / min_len as f32)
        .sqrt();

    assert!(
        rmse < 1e-4,
        "Chunked output diverged from whole output: rmse={}",
        rmse
    );
}

#[test]
fn test_branch_taps_sum_to_one() {
    // Every polyphase branch is normalized to unit sum, which exercises the
    // double-precision design chain: a pass-through in any trusted primitive
    // would break the normalization.
    let resampler = Resampler::new(50_000, 48_000);
    assert_eq!(resampler.coeffs.len(), 256);
    for branch in resampler.coeffs.iter() {
        assert_eq!(branch.len(), 17);
        let sum: f64 = branch.iter().map(|&c| f32::from_bits(c) as f64).sum();
        assert!((sum - 1.0).abs() < 1e-6, "branch sum is {}", sum);
    }
}

#[test]
fn test_output_length_follows_rate_ratio() {
    // Downsampling 10 kHz to 5 kHz roughly halves the sample count.
    let mut resampler = Resampler::new(10_000, 5_000);
    let input: Vec<u32> = (0..1_000).map(|_| 0.25f32.to_bits()).collect();
    let mut out: Vec<u32> = Vec::new();
    resampler.process(&input, &mut out);
    assert!(
        (out.len() as isize - 500).abs() <= 9,
        "output length {} is far from half the input",
        out.len()
    );
}
