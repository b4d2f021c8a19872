use hackrf_dsp::cpx::Cx;
use hackrf_dsp::filter::DecimationFilter;

fn fcx(re: f32, im: f32) -> Cx {
    Cx { re: re.to_bits(), im: im.to_bits() }
}

fn norm_sqr(v: Cx) -> f32 {
    let re = f32::from_bits(v.re);
    let im = f32::from_bits(v.im);
    re * re + im * im
}

fn run_in_chunks(filter: &mut DecimationFilter, input: &[Cx], chunk_size: usize) -> Vec<Cx> {
    let mut output = Vec::new();
    for chunk in input.chunks(chunk_size) {
        let chunk_vec: Vec<Cx> = chunk.to_vec();
        output.extend(filter.process(&chunk_vec));
    }
    output
}

#[test]
fn test_boxcar_decimation_basic() {
    let mut flt = DecimationFilter::new_boxcar(4);

    let input: Vec<Cx> = vec![
        fcx(1.0, 0.0),
        fcx(2.0, 0.0),
        fcx(3.0, 0.0),
        fcx(4.0, 0.0),
        fcx(5.0, 0.0),
        fcx(6.0, 0.0),
        fcx(7.0, 0.0),
        fcx(8.0, 0.0),
    ];

    let out = flt.process(&input);
    assert_eq!(out.len(), 2);
}

#[test]
fn test_fir_decimation_stopband_attenuation() {
    let mut flt_pass = DecimationFilter::new_fir(40, 61, 0.005f32.to_bits());
    let mut flt_stop = DecimationFilter::new_fir(40, 61, 0.005f32.to_bits());

    let sample_rate = 2_000_000.0f32;

    let pass_freq = 1_000.0f32;
    let mut input_pass = vec![];
    for i in 0..10_000 {
        let t = i as f32 / sample_rate;
        input_pass.push(fcx((2.0 * std::f32::consts::PI * pass_freq * t).cos(), 0.0));
    }

    let stop_freq = 100_000.0f32;
    let mut input_stop = vec![];
    for i in 0..10_000 {
        let t = i as f32 / sample_rate;
        input_stop.push(fcx((2.0 * std::f32::consts::PI * stop_freq * t).cos(), 0.0));
    }

    let out_pass = flt_pass.process(&input_pass);
    assert_eq!(out_pass.len(), 10_000 / 40);

    let out_stop = flt_stop.process(&input_stop);

    let mut pass_power = 0.0;
    for c in &out_pass[10..] {
        pass_power += norm_sqr(*c);
    }
    let pass_power = pass_power / (out_pass.len() - 10) as f32;

    let mut stop_power = 0.0;
    for c in &out_stop[10..] {
        stop_power += norm_sqr(*c);
    }
    let stop_power = stop_power / (out_stop.len() - 10) as f32;

    assert!(pass_power > 0.4);
    assert!(
        stop_power < 0.05,
        "Stopband signal not attenuated sufficiently: {}",
        stop_power
    );
}

#[test]
fn test_fir_decimation_chunk_invariance() {
    let factor = 40;
    let mut flt_whole = DecimationFilter::new_fir(factor, 201, 0.005f32.to_bits());
    let mut flt_chunks = DecimationFilter::new_fir(factor, 201, 0.005f32.to_bits());

    let sample_rate = 2_000_000.0f32;
    let len = 131_072 * 3 + 17;
    let mut input = Vec::with_capacity(len);
    for i in 0..len {
        let t = i as f32 / sample_rate;
        let re = 0.7 * (2.0 * std::f32::consts::PI * 3_000.0 * t).cos()
            + 0.2 * (2.0 * std::f32::consts::PI * 12_000.0 * t).cos();
        let im = 0.7 * (2.0 * std::f32::consts::PI * 3_000.0 * t).sin()
            + 0.2 * (2.0 * std::f32::consts::PI * 12_000.0 * t).sin();
        input.push(fcx(re, im));
    }

    let out_whole = flt_whole.process(&input);
    let out_chunks = run_in_chunks(&mut flt_chunks, &input, 131_072);

    assert_eq!(out_whole.len(), out_chunks.len());
    let max_err = out_whole
        .iter()
        .zip(out_chunks.iter())
        .map(|(&a, &b)| {
            let dre = f32::from_bits(a.re) - f32::from_bits(b.re);
            let dim = f32::from_bits(a.im) - f32::from_bits(b.im);
            dre.hypot(dim)
        })
        .fold(0.0, f32::max);

    assert!(
        max_err < 1e-5,
        "Chunked decimation diverged from whole processing: max_err={}",
        max_err
    );
}

#[test]
fn test_fir_decimation_adjacent_channel_rejection() {
    let sample_rate = 2_000_000.0f32;
    let factor = 40;
    let cutoff_norm = 4_500.0f32 / sample_rate;
    let mut flt_pass = DecimationFilter::new_fir(factor, 601, cutoff_norm.to_bits());
    let mut flt_adj = DecimationFilter::new_fir(factor, 601, cutoff_norm.to_bits());

    let len = 200_000;
    let mut input_pass = Vec::with_capacity(len);
    let mut input_adj = Vec::with_capacity(len);

    for i in 0..len {
        let t = i as f32 / sample_rate;
        input_pass.push(fcx(
            (2.0 * std::f32::consts::PI * 1_000.0 * t).cos(),
            (2.0 * std::f32::consts::PI * 1_000.0 * t).sin(),
        ));
        input_adj.push(fcx(
            (2.0 * std::f32::consts::PI * 9_000.0 * t).cos(),
            (2.0 * std::f32::consts::PI * 9_000.0 * t).sin(),
        ));
    }

    let out_pass = flt_pass.process(&input_pass);
    let out_adj = flt_adj.process(&input_adj);

    let skip = 50usize.min(out_pass.len().saturating_sub(1));
    let pass_power =
        out_pass[skip..].iter().map(|c| norm_sqr(*c)).sum::<f32>() / (out_pass.len() - skip) as f32;
    let adj_power =
        out_adj[skip..].iter().map(|c| norm_sqr(*c)).sum::<f32>() / (out_adj.len() - skip) as f32;

    assert!(
        adj_power < pass_power * 0.01,
        "Adjacent rejection is too weak: pass_power={}, adj_power={}",
        pass_power,
        adj_power
    );
}

#[test]
fn test_fir_coefficients_sum_to_one() {
    // The low-pass design normalizes its taps to unit DC gain; a boxcar's
    // taps are all 1/M. Both fail if the trusted sine, cosine or division
    // returned their argument unchanged.
    let flt = DecimationFilter::new_fir(4, 21, 0.1f32.to_bits());
    let sum: f32 = flt.coeffs.iter().map(|&c| f32::from_bits(c)).sum();
    assert!((sum - 1.0).abs() < 1e-5, "tap sum is {}", sum);

    let boxcar = DecimationFilter::new_boxcar(5);
    for &c in boxcar.coeffs.iter() {
        assert_eq!(f32::from_bits(c), 0.2);
    }
}

#[test]
fn test_bandpass_passes_band_and_rejects_outside() {
    // A bandpass built as the difference of two unit-gain low-pass designs
    // passes a tone inside the band and rejects one well outside it.
    let sample_rate = 2_000_000.0f32;
    let lo = 2_000.0f32 / sample_rate;
    let hi = 10_000.0f32 / sample_rate;
    let mut flt_in = DecimationFilter::new_fir_band(40, 601, lo.to_bits(), hi.to_bits());
    let mut flt_out = DecimationFilter::new_fir_band(40, 601, lo.to_bits(), hi.to_bits());

    let len = 200_000;
    let mut tone_in = Vec::with_capacity(len);
    let mut tone_out = Vec::with_capacity(len);
    for i in 0..len {
        let t = i as f32 / sample_rate;
        tone_in.push(fcx(
            (2.0 * std::f32::consts::PI * 6_000.0 * t).cos(),
            (2.0 * std::f32::consts::PI * 6_000.0 * t).sin(),
        ));
        tone_out.push(fcx(
            (2.0 * std::f32::consts::PI * 40_000.0 * t).cos(),
            (2.0 * std::f32::consts::PI * 40_000.0 * t).sin(),
        ));
    }
    let out_in = flt_in.process(&tone_in);
    let out_out = flt_out.process(&tone_out);
    let skip = 50;
    let p_in = out_in[skip..].iter().map(|c| norm_sqr(*c)).sum::<f32>()
        / (out_in.len() - skip) as f32;
    let p_out = out_out[skip..].iter().map(|c| norm_sqr(*c)).sum::<f32>()
        / (out_out.len() - skip) as f32;
    assert!(
        p_out < p_in * 0.01,
        "Band rejection too weak: in={}, out={}",
        p_in,
        p_out
    );
}

#[test]
fn test_set_fir_bandpass_keeps_stream_state() {
    // Retuning the band recomputes the taps but keeps the carried history
    // and decimation phase.
    let mut flt = DecimationFilter::new_fir(4, 9, 0.1f32.to_bits());
    let input: Vec<Cx> = (0..10).map(|i| fcx(i as f32, 0.0)).collect();
    let _ = flt.process(&input);
    let phase_before = flt.phase;
    let hist_before: Vec<u32> = flt.history.iter().map(|c| c.re).collect();
    flt.set_fir_bandpass(0.01f32.to_bits(), 0.05f32.to_bits());
    assert_eq!(flt.phase, phase_before);
    let hist_after: Vec<u32> = flt.history.iter().map(|c| c.re).collect();
    assert_eq!(hist_before, hist_after);
    assert_eq!(flt.coeffs.len(), 9);
}
