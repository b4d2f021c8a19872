use hackrf_dsp::fft::FFT;
use rustfft::num_complex::Complex;

fn ones_window(n: usize) -> Vec<u32> {
    vec![1.0f32.to_bits(); n]
}

fn to_f32(v: &[u32]) -> Vec<f32> {
    v.iter().map(|&x| f32::from_bits(x)).collect()
}

#[test]
fn test_fft_construction() {
    let n = 8;
    let window = ones_window(n);
    let fft = FFT::new(n, &window);

    assert_eq!(fft.n, n);
}

#[test]
fn test_fft_set_smoothing_time_constant() {
    let n = 8;
    let window = ones_window(n);
    let mut fft = FFT::new(n, &window);

    fft.set_smoothing_time_constant(0.5f32.to_bits());
}

#[test]
fn test_fft_dc_input() {
    let n = 8;
    let window = ones_window(n);
    let mut fft = FFT::new(n, &window);

    let mut input = vec![0i8; n * 2];
    for i in 0..n {
        input[i * 2] = 64;
        input[i * 2 + 1] = 0;
    }

    let mut result = vec![0u32; n];
    fft.fft(&input, &mut result);
    let result = to_f32(&result);

    let half_n = n / 2;
    let dc_component = result
        .iter()
        .enumerate()
        .max_by(|a, b| a.1.partial_cmp(b.1).unwrap());

    assert_eq!(dc_component.unwrap().0, half_n);
}

#[test]
fn test_fft_zero_input_should_not_produce_inf() {
    let n = 8;
    let window = ones_window(n);
    let mut fft = FFT::new(n, &window);

    let input = vec![0i8; n * 2];

    let mut result = vec![0u32; n];
    fft.fft(&input, &mut result);
    let result = to_f32(&result);

    for (i, &val) in result.iter().enumerate() {
        assert!(
            val.is_finite(),
            "result[{}] = {} is not finite (zero input should not produce inf)",
            i,
            val
        );
    }
}

#[test]
fn test_fft_zero_input_sits_on_floor() {
    // All-zero input reaches the 1e-10 magnitude floor in every bin, so the
    // whole slice must be exactly -100 dB.
    let n = 8;
    let window = ones_window(n);
    let mut fft = FFT::new(n, &window);

    let input = vec![0i8; n * 2];
    let mut result = vec![0u32; n];
    fft.fft(&input, &mut result);
    for (i, &val) in to_f32(&result).iter().enumerate() {
        assert_eq!(val, -100.0, "bin {} is not on the -100 dB floor", i);
    }
}

#[test]
fn test_fft_smoothing() {
    let n = 8;
    let window = ones_window(n);
    let mut fft = FFT::new(n, &window);
    fft.set_smoothing_time_constant(0.5f32.to_bits());

    let mut input = vec![0i8; n * 2];
    for i in 0..n {
        input[i * 2] = 64;
        input[i * 2 + 1] = 0;
    }

    let mut result1 = vec![0u32; n];
    fft.fft(&input, &mut result1);
    let result1 = to_f32(&result1);

    let mut result2 = vec![0u32; n];
    fft.fft(&input, &mut result2);
    let result2 = to_f32(&result2);

    let mut differences_found = false;
    for i in 0..n {
        if result1[i].is_finite() && result2[i].is_finite() {
            let diff = (result1[i] - result2[i]).abs();
            if diff > 1e-6 {
                differences_found = true;
            }
        }
    }
    assert!(
        differences_found,
        "Smoothing should produce different results on consecutive calls with same input"
    );
}

#[test]
fn test_fft_smoothing_disabled_when_constant_is_zero() {
    let n = 8;
    let window = ones_window(n);
    let mut fft = FFT::new(n, &window);

    let mut input = vec![0i8; n * 2];
    for i in 0..n {
        input[i * 2] = 64;
        input[i * 2 + 1] = 0;
    }

    let mut result1 = vec![0u32; n];
    fft.fft(&input, &mut result1);
    let result1 = to_f32(&result1);

    let mut result2 = vec![0u32; n];
    fft.fft(&input, &mut result2);
    let result2 = to_f32(&result2);

    for i in 0..n {
        if result1[i].is_finite() && result2[i].is_finite() {
            assert_eq!(
                result1[i], result2[i],
                "Without smoothing, same input should produce same output at index {}",
                i
            );
        }
    }
}

#[test]
fn test_fft_smoothing_edge_cases() {
    let n = 8;
    let window = ones_window(n);

    let mut fft = FFT::new(n, &window);
    fft.set_smoothing_time_constant(1.0f32.to_bits());

    let mut input = vec![0i8; n * 2];
    for i in 0..n {
        input[i * 2] = 64;
        input[i * 2 + 1] = 0;
    }

    let mut result1 = vec![0u32; n];
    fft.fft(&input, &mut result1);
    let result1 = to_f32(&result1);

    let mut result2 = vec![0u32; n];
    fft.fft(&input, &mut result2);
    let result2 = to_f32(&result2);

    for i in 0..n {
        if result1[i].is_finite() && result2[i].is_finite() {
            assert_eq!(
                result1[i], result2[i],
                "With \u{3b1}=1.0, output should stay constant at index {}",
                i
            );
        }
    }

    let mut fft = FFT::new(n, &window);
    fft.set_smoothing_time_constant((-0.5f32).to_bits());
    let mut result = vec![0u32; n];
    fft.fft(&input, &mut result);

    let mut fft = FFT::new(n, &window);
    fft.set_smoothing_time_constant(1.5f32.to_bits());
    let mut result = vec![0u32; n];
    fft.fft(&input, &mut result);
}

#[test]
fn test_fft_dc_input_magnitude() {
    let n = 8;
    let window = ones_window(n);
    let mut fft = FFT::new(n, &window);

    let mut input = vec![0i8; n * 2];
    for i in 0..n {
        input[i * 2] = 64;
        input[i * 2 + 1] = 0;
    }

    let mut result = vec![0u32; n];
    fft.fft(&input, &mut result);
    let result = to_f32(&result);

    let half_n = n / 2;
    let dc_value = result[half_n];

    let expected_db = 10.0 * 0.5f32.log10();
    assert!(
        (dc_value - expected_db).abs() < 0.1,
        "DC component {} should be close to {} (dB)",
        dc_value,
        expected_db
    );

    let max_idx = result
        .iter()
        .enumerate()
        .max_by(|a, b| a.1.partial_cmp(b.1).unwrap())
        .map(|(i, _)| i)
        .unwrap();
    assert_eq!(max_idx, half_n, "DC component should be at index {}", half_n);
}

#[test]
fn test_fft_negative_input() {
    let n = 8;
    let window = ones_window(n);
    let mut fft = FFT::new(n, &window);

    let mut input = vec![0i8; n * 2];
    for i in 0..n {
        input[i * 2] = -64;
        input[i * 2 + 1] = 0;
    }

    let mut result = vec![0u32; n];
    fft.fft(&input, &mut result);
    let result = to_f32(&result);

    for (i, &val) in result.iter().enumerate() {
        assert!(
            val.is_finite(),
            "result[{}] = {} is not finite (negative input should be handled)",
            i,
            val
        );
    }
}

#[test]
fn test_fft_i8_boundary_values() {
    let n = 8;
    let window = ones_window(n);
    let mut fft = FFT::new(n, &window);

    let test_values = [i8::MIN, -1, 0, 1, i8::MAX];

    for &val in &test_values {
        let mut input = vec![0i8; n * 2];
        for i in 0..n {
            input[i * 2] = val;
            input[i * 2 + 1] = 0;
        }

        let mut result = vec![0u32; n];
        fft.fft(&input, &mut result);
        let result = to_f32(&result);

        for (i, &r) in result.iter().enumerate() {
            assert!(
                r.is_finite(),
                "result[{}] = {} is not finite for input value {}",
                i,
                r,
                val
            );
        }
    }
}

#[test]
fn test_fft_differential_against_reference() {
    let n = 16;
    let mut window = vec![0.0f32; n];
    for (i, w) in window.iter_mut().enumerate() {
        *w = 0.5 * (1.0 - (2.0 * std::f32::consts::PI * i as f32 / (n - 1) as f32).cos());
    }
    let window_bits: Vec<u32> = window.iter().map(|w| w.to_bits()).collect();

    let mut fft = FFT::new(n, &window_bits);
    fft.set_smoothing_time_constant(0.3f32.to_bits());

    let mut input = vec![0i8; n * 2];
    for i in 0..n {
        input[i * 2] = (i as i8).wrapping_sub(8).wrapping_mul(10);
        input[i * 2 + 1] = (7i8).wrapping_sub(i as i8).wrapping_mul(10);
    }

    let mut result_opt = vec![0u32; n];
    fft.fft(&input, &mut result_opt);

    let mut prev = vec![0.0f32; n];
    let expected = calculate_reference_fft(n, &window, &input, &mut prev, 0.3);

    let result_f = to_f32(&result_opt);
    for i in 0..n {
        assert!(
            (result_f[i] - expected[i]).abs() < 1e-5,
            "Mismatch at index {} on 1st run: opt={}, expected={}",
            i,
            result_f[i],
            expected[i]
        );
    }

    fft.fft(&input, &mut result_opt);
    let expected2 = calculate_reference_fft(n, &window, &input, &mut prev, 0.3);

    let result_f = to_f32(&result_opt);
    for i in 0..n {
        assert!(
            (result_f[i] - expected2[i]).abs() < 1e-5,
            "Mismatch at index {} on 2nd run: opt={}, expected={}",
            i,
            result_f[i],
            expected2[i]
        );
    }
}

fn calculate_reference_fft(
    n: usize,
    window: &[f32],
    input: &[i8],
    prev: &mut [f32],
    alpha: f32,
) -> Vec<f32> {
    let mut buffer = vec![Complex { re: 0.0f32, im: 0.0f32 }; n];
    for i in 0..n {
        buffer[i] = Complex {
            re: input[i * 2] as f32 / 128.0,
            im: input[i * 2 + 1] as f32 / 128.0,
        } * window[i];
    }

    let mut planner = rustfft::FftPlanner::new();
    let fft = planner.plan_fft_forward(n);
    fft.process(&mut buffer);

    let half_n = n / 2;
    let mut shifted = vec![0.0f32; n];
    for i in 0..half_n {
        shifted[i + half_n] = buffer[i].norm() / n as f32;
        shifted[i] = buffer[i + half_n].norm() / n as f32;
    }

    let mut res = vec![0.0f32; n];
    for i in 0..n {
        let magnitude = if alpha > 0.0 {
            let s = alpha * prev[i] + (1.0 - alpha) * shifted[i];
            prev[i] = s;
            s
        } else {
            shifted[i]
        };
        res[i] = magnitude.max(1e-10).log10() * 10.0;
    }
    res
}

#[test]
fn test_fft_dc_placement_scales_with_amplitude() {
    // A constant input (c, 0) peaks at the center bin with a level of
    // 10 log10(c / 128), here for a larger transform and amplitude.
    let n = 32;
    let window = ones_window(n);
    let mut fft = FFT::new(n, &window);

    let mut input = vec![0i8; n * 2];
    for i in 0..n {
        input[i * 2] = 100;
    }
    let mut result = vec![0u32; n];
    fft.fft(&input, &mut result);
    let result = to_f32(&result);

    let max_idx = result
        .iter()
        .enumerate()
        .max_by(|a, b| a.1.partial_cmp(b.1).unwrap())
        .map(|(i, _)| i)
        .unwrap();
    assert_eq!(max_idx, n / 2);
    let expected = 10.0 * (100.0f32 / 128.0).log10();
    assert!(
        (result[n / 2] - expected).abs() < 0.1,
        "DC bin {} should be near {}",
        result[n / 2],
        expected
    );
}
