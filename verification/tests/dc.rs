use hackrf_dsp::cpx::Cx;
use hackrf_dsp::dc::DcCanceller;

fn cx(re: f32, im: f32) -> Cx {
    Cx { re: re.to_bits(), im: im.to_bits() }
}

fn norm_of(v: Cx) -> f32 {
    f32::from_bits(v.re).hypot(f32::from_bits(v.im))
}

fn re_of(v: Cx) -> f32 {
    f32::from_bits(v.re)
}

fn im_of(v: Cx) -> f32 {
    f32::from_bits(v.im)
}

fn run_whole(canceller: &mut DcCanceller, input: &[Cx]) -> Vec<Cx> {
    input.iter().map(|&x| canceller.process(x)).collect()
}

fn run_in_chunks(canceller: &mut DcCanceller, input: &[Cx], chunk_size: usize) -> Vec<Cx> {
    let mut out = Vec::with_capacity(input.len());
    for chunk in input.chunks(chunk_size) {
        for &x in chunk {
            out.push(canceller.process(x));
        }
    }
    out
}

#[test]
fn test_constant_dc_converges_to_zero() {
    let mut canceller = DcCanceller::new(2_000_000.0f32.to_bits(), 20_000.0f32.to_bits());
    let dc = cx(0.35, -0.17);
    let input = vec![dc; 120_000];
    let out = run_whole(&mut canceller, &input);

    let tail = &out[90_000..];
    let mean_norm = tail.iter().map(|&v| norm_of(v)).sum::<f32>() / tail.len() as f32;
    assert!(
        mean_norm < 1e-6,
        "DC should be canceled; mean tail norm too large: {}",
        mean_norm
    );
}

#[test]
fn test_ac_component_is_preserved_while_dc_removed() {
    let sample_rate = 2_000_000.0f32;
    let tone_hz = 8_000.0f32;
    let mut canceller = DcCanceller::new(sample_rate.to_bits(), 20_000.0f32.to_bits());

    let len = 300_000usize;
    let dc = (0.4f32, -0.25f32);
    let mut input = Vec::with_capacity(len);
    let mut ideal_ac = Vec::with_capacity(len);

    for i in 0..len {
        let t = i as f32 / sample_rate;
        let phase = 2.0 * std::f32::consts::PI * tone_hz * t;
        let ac = (phase.cos(), phase.sin());
        ideal_ac.push(ac);
        input.push(cx(ac.0 + dc.0, ac.1 + dc.1));
    }

    let out = run_whole(&mut canceller, &input);

    let skip = 160_000usize;
    let out_tail = &out[skip..];
    let ac_tail = &ideal_ac[skip..];

    let mean_re = out_tail.iter().map(|&v| re_of(v)).sum::<f32>() / out_tail.len() as f32;
    let mean_im = out_tail.iter().map(|&v| im_of(v)).sum::<f32>() / out_tail.len() as f32;
    assert!(
        mean_re.abs() < 5e-3 && mean_im.abs() < 5e-3,
        "Output DC residual too large: mean_re={}, mean_im={}",
        mean_re,
        mean_im
    );

    let rms_out = (out_tail.iter().map(|&v| re_of(v) * re_of(v) + im_of(v) * im_of(v)).sum::<f32>()
        / out_tail.len() as f32)
        .sqrt();
    let rms_ac = (ac_tail.iter().map(|&v| v.0 * v.0 + v.1 * v.1).sum::<f32>()
        / ac_tail.len() as f32)
        .sqrt();
    let ratio = rms_out / rms_ac;
    assert!(
        (0.995..=1.005).contains(&ratio),
        "AC gain out of range: ratio={}",
        ratio
    );
}

#[test]
fn test_near_dc_is_strongly_attenuated() {
    let sample_rate = 2_000_000.0f32;
    let mut canceller = DcCanceller::new(sample_rate.to_bits(), 20_000.0f32.to_bits());

    let len = 400_000usize;
    let tone_hz = 30.0f32;
    let mut input = Vec::with_capacity(len);
    for i in 0..len {
        let t = i as f32 / sample_rate;
        let phase = 2.0 * std::f32::consts::PI * tone_hz * t;
        input.push(cx(phase.cos(), phase.sin()));
    }

    let out = run_whole(&mut canceller, &input);
    let skip = 100_000usize;
    let out_rms = (out[skip..]
        .iter()
        .map(|&v| re_of(v) * re_of(v) + im_of(v) * im_of(v))
        .sum::<f32>()
        / (len - skip) as f32)
        .sqrt();

    assert!(
        out_rms < 0.1,
        "Near-DC tone attenuation too weak: out_rms={}",
        out_rms
    );
}

#[test]
fn test_chunk_invariance() {
    let sample_rate = 2_000_000.0f32;
    let mut whole = DcCanceller::new(sample_rate.to_bits(), 20_000.0f32.to_bits());
    let mut chunked = DcCanceller::new(sample_rate.to_bits(), 20_000.0f32.to_bits());

    let len = 131_072 * 3 + 29;
    let mut input = Vec::with_capacity(len);
    for i in 0..len {
        let t = i as f32 / sample_rate;
        let re = 0.7
            + 0.8 * (2.0 * std::f32::consts::PI * 1_700.0 * t).cos()
            + 0.2 * (2.0 * std::f32::consts::PI * 13_000.0 * t).cos();
        let im = -0.5
            + 0.8 * (2.0 * std::f32::consts::PI * 1_700.0 * t).sin()
            + 0.2 * (2.0 * std::f32::consts::PI * 13_000.0 * t).sin();
        input.push(cx(re, im));
    }

    let out_whole = run_whole(&mut whole, &input);
    let out_chunked = run_in_chunks(&mut chunked, &input, 131_072);
    assert_eq!(out_whole.len(), out_chunked.len());

    let max_err = out_whole
        .iter()
        .zip(out_chunked.iter())
        .map(|(&a, &b)| (re_of(a) - re_of(b)).hypot(im_of(a) - im_of(b)))
        .fold(0.0, f32::max);
    assert!(
        max_err < 1e-7,
        "Chunked processing diverged from whole processing: max_err={}",
        max_err
    );
}

#[test]
fn test_extreme_q_is_finite_and_stable() {
    let mut canceller = DcCanceller::new(2_000_000.0f32.to_bits(), 1_000_000_000.0f32.to_bits());
    let mut max_norm = 0.0f32;
    for i in 0..200_000usize {
        let x = if i % 2 == 0 { cx(1.0, -1.0) } else { cx(-1.0, 1.0) };
        let y = canceller.process(x);
        assert!(re_of(y).is_finite() && im_of(y).is_finite());
        max_norm = max_norm.max(norm_of(y));
    }
    assert!(max_norm < 10.0, "Unexpectedly large output norm: {}", max_norm);
}

#[test]
fn test_pole_radius_is_inside_unit_circle() {
    // The construction path runs through the trusted division and
    // exponential: with a 2 MHz rate and Q of 20000 the pole radius must be
    // strictly between 0.999 and 1, which fails if either primitive returned
    // its argument unchanged.
    let canceller = DcCanceller::new(2_000_000.0f32.to_bits(), 20_000.0f32.to_bits());
    let r = f32::from_bits(canceller.stage1.r);
    let expected = (-2.0 * std::f32::consts::PI * 100.0 / 2_000_000.0f32).exp();
    assert!((r - expected).abs() < 1e-9, "pole radius {} vs {}", r, expected);
    assert!(r > 0.999 && r < 1.0);
}
