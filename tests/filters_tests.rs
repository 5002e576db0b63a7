use filters::coefficient::{encode_coefficient, SCALE};
use filters::{HighPassFilter, LowPassFilter, NormalizedLowPassFilter};

#[test]
fn test_low_pass_filter() {
    let mut lowpass_filter = LowPassFilter::new(0);
    for alpha in 1..(2u16 << (SCALE - 1)) {
        println!("alpha: {alpha}");
        lowpass_filter.set_alpha(alpha);
        for i in 0..1024_u16 {
            let output = lowpass_filter.low_pass(i);
            assert!(output <= i);
        }
        lowpass_filter.reset();
    }
}

#[test]
fn test_high_pass_filter() {
    let mut lowpass_filter = LowPassFilter::new(1);
    let mut highpass_filter = HighPassFilter::new(1);

    for alpha in 1..(2u16 << (SCALE - 1)) {
        lowpass_filter.set_alpha(alpha);
        highpass_filter.set_alpha(alpha);
        let mut h_output = 0;
        let mut l_output = 0;
        for i in 0..1024_u16 {
            l_output = lowpass_filter.low_pass(i);
            h_output = highpass_filter.high_pass(i);
        }
        println!("alpha {alpha} - l_output {l_output} h_output: {h_output}");
        lowpass_filter.reset();
        highpass_filter.reset();
    }
}

#[test]
fn coefficient_encoding_values() {
    assert_eq!(encode_coefficient(0), (1, 126));
    assert_eq!(encode_coefficient(10), (11, 116));
    assert_eq!(encode_coefficient(126), (127, 0));
}

#[test]
fn low_pass_formula_value() {
    let mut f = LowPassFilter::new(10);
    // (11 * 1023 + 116 * 0) / 128
    assert_eq!(f.low_pass(1023), 87);
    // (11 * 1023 + 116 * 87) / 128
    assert_eq!(f.low_pass(1023), 166);
}

#[test]
fn low_pass_full_coefficient_follows_input() {
    let mut f = LowPassFilter::new(126);
    // (127 * 1000) / 128
    assert_eq!(f.low_pass(1000), 992);
    assert_eq!(f.low_pass(65535), 65023);
}

#[test]
fn low_pass_step_scenario() {
    let mut f = LowPassFilter::new(10);
    let inputs: [u16; 10] = [0, 0, 0, 0, 0, 1023, 1023, 1023, 1023, 1023];
    let outputs: Vec<u16> = inputs.iter().map(|&x| f.low_pass(x)).collect();
    for i in 0..5 {
        assert_eq!(outputs[i], 0);
    }
    for i in 5..10 {
        assert!(outputs[i] > outputs[i - 1], "output {} did not rise: {:?}", i, outputs);
    }
}

#[test]
fn constant_input_rises_monotonically_and_settles() {
    let mut f = LowPassFilter::new(0);
    let mut last = 0u16;
    for _ in 0..2000 {
        let out = f.low_pass(1023);
        assert!(out >= last);
        assert!(out <= 1023);
        // never above alpha * v / (alpha + 1) with alpha == 1
        assert!(2 * (out as u32) <= 1023);
        last = out;
    }
    // settles within 128 / (alpha + 1) of that level
    assert!(1023 - 2 * (last as u32) < 128);
}

#[test]
fn constant_input_below_state_falls_strictly() {
    let mut f = LowPassFilter::new(40);
    for _ in 0..50 {
        f.low_pass(5000);
    }
    let mut last = f.low_pass(5000);
    for _ in 0..20 {
        let out = f.low_pass(100);
        if last > 100 {
            assert!(out < last);
        }
        last = out;
    }
    let mut z = LowPassFilter::new(3);
    z.low_pass(60000);
    let mut prev = z.low_pass(60000);
    for _ in 0..5000 {
        let out = z.low_pass(0);
        assert!(out < prev || prev == 0);
        prev = out;
    }
    assert_eq!(prev, 0);
}

#[test]
fn output_never_exceeds_input_history() {
    let mut f = LowPassFilter::new(90);
    let inputs: [u16; 12] = [500, 65535, 3, 12000, 0, 0, 40000, 65535, 65535, 7, 9, 30000];
    let mut max_seen = 0u16;
    for &x in inputs.iter() {
        max_seen = max_seen.max(x);
        let out = f.low_pass(x);
        assert!(out <= max_seen);
    }
}

#[test]
fn high_plus_low_reconstructs_input() {
    let mut low = LowPassFilter::new(20);
    let mut high = HighPassFilter::new(20);
    for i in 0..3000u32 {
        let x = ((i * 37) % 4096) as u16;
        let l = low.low_pass(x);
        let h = high.high_pass(x);
        if l <= x {
            assert_eq!(h as u32 + l as u32, x as u32);
        } else {
            assert_eq!(h, 0);
        }
    }
}

#[test]
fn high_pass_formula_and_clamp() {
    let mut h = HighPassFilter::new(10);
    assert_eq!(h.high_pass(1023), 1023 - 87);
    // low-pass output (11 * 0 + 116 * 87) / 128 == 78 lies above the input
    assert_eq!(h.high_pass(0), 0);
}

#[test]
fn set_alpha_keeps_last_output() {
    let mut f = LowPassFilter::new(10);
    assert_eq!(f.low_pass(1023), 87);
    f.set_alpha(63);
    // (64 * 0 + 63 * 87) / 128
    assert_eq!(f.low_pass(0), 42);
    let mut h = HighPassFilter::new(10);
    h.high_pass(1023);
    h.set_alpha(63);
    // low-pass part: (64 * 100 + 63 * 87) / 128 == 92
    assert_eq!(h.high_pass(100), 8);
}

#[test]
fn reset_clears_last_output() {
    let mut f = LowPassFilter::new(10);
    f.low_pass(1023);
    f.reset();
    assert_eq!(f.low_pass(0), 0);
    assert_eq!(f.low_pass(1023), 87);
    let mut h = HighPassFilter::new(10);
    h.high_pass(1023);
    h.reset();
    assert_eq!(h.high_pass(1023), 1023 - 87);
    let mut n = NormalizedLowPassFilter::new(10);
    n.low_pass(1023);
    n.reset();
    assert_eq!(n.low_pass(1023), 159);
}

#[test]
fn sinusoid_through_both_filters() {
    let samples: Vec<u16> = (0..1024u16)
        .map(|x| {
            let s = (x as f64 / 1024.0 * 2.0 * std::f64::consts::PI).sin();
            ((s * 0.5 + 0.5) * 1024.0) as u16
        })
        .collect();
    let mut low = LowPassFilter::new(1);
    let mut high = HighPassFilter::new(1);
    let mut lows = Vec::new();
    let mut highs = Vec::new();
    for _ in 0..2 {
        for &x in samples.iter() {
            lows.push(low.low_pass(x));
            highs.push(high.high_pass(x));
        }
    }
    let settled_low = &lows[1024..];
    let settled_high = &highs[1024..];
    let p2p = |v: &[u16]| *v.iter().max().unwrap() as i64 - *v.iter().min().unwrap() as i64;
    let mean = |v: &[u16]| v.iter().map(|&x| x as f64).sum::<f64>() / v.len() as f64;
    assert!(p2p(settled_low) < p2p(&samples));
    assert!(mean(settled_high) < mean(&samples));
}

#[test]
fn normalized_formula_value() {
    let mut n = NormalizedLowPassFilter::new(10);
    // (10 * 1023 + 54 * 0) / 64
    assert_eq!(n.low_pass(1023), 159);
    // (10 * 1023 + 54 * 159) / 64
    assert_eq!(n.low_pass(1023), 294);
}

#[test]
fn normalized_narrows_wide_samples() {
    let mut n = NormalizedLowPassFilter::new(32);
    // 65535 has 16 bits: narrowed by 6 to 1023, realigned by 6
    // (32 * 1023 * 64) / 64
    assert_eq!(n.low_pass(65535), 32736);
}

#[test]
fn normalized_large_coefficient() {
    // 1000 has 10 bits: kept as 1000 >> 4 == 62, products realigned by 4
    let mut n = NormalizedLowPassFilter::new(1000);
    assert_eq!(n.low_pass(100), 1550);
    // the gain of a shifted coefficient saturates the output
    let mut s = NormalizedLowPassFilter::new(65535);
    assert_eq!(s.low_pass(65535), 65535);
}

#[test]
fn normalized_zero_coefficient_holds_state() {
    let mut n = NormalizedLowPassFilter::new(0);
    assert_eq!(n.low_pass(1023), 0);
    assert_eq!(n.low_pass(65535), 0);
}

#[test]
fn normalized_step_response_rises_strictly() {
    let mut n = NormalizedLowPassFilter::new(10);
    for _ in 0..5 {
        assert_eq!(n.low_pass(0), 0);
    }
    let mut prev = 0u16;
    for _ in 0..12 {
        let out = n.low_pass(1023);
        assert!(out > prev);
        assert!(out <= 1023);
        prev = out;
    }
    // rises until 10 * (1023 - last) drops below 64
    for _ in 0..200 {
        let out = n.low_pass(1023);
        assert!(out >= prev && out <= 1023);
        if out == prev {
            assert!(10 * (1023 - out as u32) < 64);
        }
        prev = out;
    }
}

#[test]
fn normalized_wide_constant_does_not_overshoot() {
    let mut n = NormalizedLowPassFilter::new(1);
    let mut prev = 0u16;
    for _ in 0..2000 {
        let out = n.low_pass(2048);
        assert!(out <= 2048);
        assert!(out >= prev);
        prev = out;
    }
    let mut w = NormalizedLowPassFilter::new(50);
    for _ in 0..300 {
        assert!(w.low_pass(65535) <= 65535);
    }
    let mut d = NormalizedLowPassFilter::new(50);
    for _ in 0..300 {
        d.low_pass(60000);
    }
    let mut prev = d.low_pass(60000);
    for _ in 0..300 {
        let out = d.low_pass(0);
        assert!(out <= prev);
        prev = out;
    }
}
