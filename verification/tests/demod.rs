use hackrf_dsp::cpx::Cx;
use hackrf_dsp::demod::{AMDemodulator, Nco};

fn dcx(re: f32, im: f32) -> Cx {
    Cx { re: re.to_bits(), im: im.to_bits() }
}

fn demod_in_chunks(demod: &mut AMDemodulator, input: &[Cx], chunk_size: usize) -> Vec<f32> {
    let mut out = Vec::new();
    for chunk in input.chunks(chunk_size) {
        let chunk_vec: Vec<Cx> = chunk.to_vec();
        let mut chunk_out = vec![0u32; chunk.len()];
        demod.demodulate(&chunk_vec, &mut chunk_out);
        out.extend(chunk_out.iter().map(|&x| f32::from_bits(x)));
    }
    out
}

#[test]
fn test_nco_frequency() {
    let sample_rate = 1000.0f32;
    let freq = 250.0f32;
    let mut nco = Nco::new(freq.to_bits(), sample_rate.to_bits());

    let c0 = nco.step();
    assert!((f32::from_bits(c0.re) - 1.0).abs() < 1e-6);
    assert!((f32::from_bits(c0.im) - 0.0).abs() < 1e-6);

    let c1 = nco.step();
    assert!(f32::from_bits(c1.re).abs() < 1e-6);
    assert!((f32::from_bits(c1.im) - 1.0).abs() < 1e-6);

    let c2 = nco.step();
    assert!((f32::from_bits(c2.re) - (-1.0)).abs() < 1e-6);
    assert!(f32::from_bits(c2.im).abs() < 1e-6);

    let c3 = nco.step();
    assert!(f32::from_bits(c3.re).abs() < 1e-6);
    assert!((f32::from_bits(c3.im) - (-1.0)).abs() < 1e-6);
}

#[test]
fn test_am_demodulation_carrier_only() {
    let mut demod = AMDemodulator::new();
    let input: Vec<Cx> = (0..120_000).map(|_| dcx(5.0, 0.0)).collect();
    let mut output = vec![0u32; input.len()];

    demod.demodulate(&input, &mut output);

    let tail = &output[100_000..];
    let mean_abs = tail.iter().map(|&x| f32::from_bits(x).abs()).sum::<f32>() / tail.len() as f32;
    assert!(
        mean_abs < 0.02,
        "Output should converge to ~0 for unmodulated carrier, got mean_abs={}",
        mean_abs
    );
}

#[test]
fn test_am_demodulation_with_signal() {
    let mut demod = AMDemodulator::new();

    let sample_rate = 48_000.0f32;
    let tone_freq = 1_000.0f32;
    let carrier_amp = 10.0f32;
    let mod_index = 0.5f32;

    let mut input = vec![];
    for i in 0..96_000 {
        let t = i as f32 / sample_rate;
        let envelope =
            carrier_amp * (1.0 + mod_index * (2.0 * std::f32::consts::PI * tone_freq * t).cos());
        input.push(dcx(envelope, 0.0));
    }

    let mut output = vec![0u32; input.len()];
    demod.demodulate(&input, &mut output);

    let start_idx = 80_000;
    let end_idx = start_idx + 48;

    let mut max_val = f32::from_bits(output[start_idx]);
    let mut min_val = f32::from_bits(output[start_idx]);
    for &val in &output[start_idx..end_idx] {
        let val = f32::from_bits(val);
        if val > max_val {
            max_val = val;
        }
        if val < min_val {
            min_val = val;
        }
    }

    let expected_amp = 0.3 * mod_index;
    let actual_amp = (max_val - min_val) / 2.0;

    let diff = (actual_amp - expected_amp).abs();
    assert!(
        diff < expected_amp * 0.15,
        "AM demodulation failed. Expected amplitude ~{}, got {}, diff={}",
        expected_amp,
        actual_amp,
        diff
    );
}

#[test]
fn test_am_demodulation_chunk_invariance() {
    let mut demod_whole = AMDemodulator::new();
    let mut demod_chunks = AMDemodulator::new();

    let sample_rate = 50_000.0f32;
    let len = 131_072 * 2 + 513;
    let mut input = Vec::with_capacity(len);

    for i in 0..len {
        let t = i as f32 / sample_rate;
        let m = 1.0 + 0.65 * (2.0 * std::f32::consts::PI * 2300.0 * t).sin();
        let phase = 2.0 * std::f32::consts::PI * 300.0 * t;
        input.push(dcx(4.0 * m * phase.cos(), 4.0 * m * phase.sin()));
    }

    let mut out_whole_bits = vec![0u32; input.len()];
    demod_whole.demodulate(&input, &mut out_whole_bits);
    let out_whole: Vec<f32> = out_whole_bits.iter().map(|&x| f32::from_bits(x)).collect();

    let out_chunks = demod_in_chunks(&mut demod_chunks, &input, 131_072);
    assert_eq!(out_whole.len(), out_chunks.len());

    let max_err = out_whole
        .iter()
        .zip(out_chunks.iter())
        .map(|(a, b)| (a - b).abs())
        .fold(0.0, f32::max);

    assert!(
        max_err < 5e-4,
        "Chunked demodulation diverged from whole processing: max_err={}",
        max_err
    );
}

#[test]
fn test_nco_negative_frequency_rotates_backwards() {
    // A negative frequency must advance the phase the other way: after one
    // quarter turn downward the oscillator points at -i. This fails if the
    // trusted sine or cosine handed their argument back.
    let mut nco = Nco::new((-250.0f32).to_bits(), 1000.0f32.to_bits());
    let _ = nco.step();
    let c1 = nco.step();
    assert!(f32::from_bits(c1.re).abs() < 1e-6);
    assert!((f32::from_bits(c1.im) - (-1.0)).abs() < 1e-6);
}

#[test]
fn test_am_demodulation_clips_at_output_clip() {
    // A sudden huge envelope after the gain settled must be clipped to the
    // 0.98 bound, which exercises the clamp path exactly.
    let mut demod = AMDemodulator::new();
    let mut input: Vec<Cx> = (0..60_000).map(|_| dcx(1.0, 0.0)).collect();
    input.push(dcx(10_000.0, 0.0));
    let mut output = vec![0u32; input.len()];
    demod.demodulate(&input, &mut output);
    let last = f32::from_bits(*output.last().unwrap());
    assert!((last - 0.98).abs() < 1e-6, "clipped output was {}", last);
}
