use am_demod::ideal_filter::{apply_highpass, apply_lowpass};
use am_demod::shifter::{freq_to_bin, frequency_shift, frequency_shift_explicit};
use am_demod::spectrum::{compute_spectrum, ComplexSample};
use num_complex::Complex;
use rustfft::FftPlanner;
use std::f64::consts::PI;

const Q: f64 = 4294967296.0;
const ONE: i64 = 0x1_0000_0000;

fn to_q(x: f64) -> i64 {
    (x * Q).round() as i64
}

fn from_q(m: i64) -> f64 {
    (m as f64) / Q
}

fn norm(z: ComplexSample) -> f64 {
    from_q(z.re).hypot(from_q(z.im))
}

#[test]
fn test_highpass_filter() {
    let n = 100;
    let f_s: i64 = 1_000_000; // 1000 Hz
    let f_c: i64 = 100_000; // 100 Hz

    let spectrum: Vec<ComplexSample> = (0..n).map(|_| ComplexSample { re: ONE, im: 0 }).collect();

    let filtered = apply_highpass(&spectrum, f_c, f_s, n);

    // Low frequencies are zeroed: DC and the 50 Hz bin.
    assert_eq!(norm(filtered[0]), 0.0);
    assert_eq!(norm(filtered[5]), 0.0);
}

#[test]
fn test_highpass_passes_above_cutoff() {
    let n = 100;
    let f_s: i64 = 1_000_000;
    let f_c: i64 = 100_000;

    let spectrum: Vec<ComplexSample> =
        (0..n).map(|i| ComplexSample { re: ONE + i as i64, im: 7 }).collect();

    let filtered = apply_highpass(&spectrum, f_c, f_s, n);

    // The 200 Hz bin and the cutoff bin itself pass through unchanged.
    assert_eq!(filtered[20], spectrum[20]);
    assert_eq!(filtered[10], spectrum[10]);
}

#[test]
fn test_lowpass_filter() {
    let n = 100;
    let f_s: i64 = 1_000_000;
    let f_c: i64 = 100_000;

    let spectrum: Vec<ComplexSample> = (0..n).map(|_| ComplexSample { re: ONE, im: 0 }).collect();

    let filtered = apply_lowpass(&spectrum, f_c, f_s, n);

    // The bin at 200 Hz is zeroed.
    let high_freq_idx = 20;
    assert_eq!(norm(filtered[high_freq_idx]), 0.0);
    // The negative-frequency mirror of 200 Hz is zeroed as well.
    assert_eq!(norm(filtered[n - high_freq_idx]), 0.0);
    // DC passes.
    assert_eq!(filtered[0], spectrum[0]);
}

#[test]
fn test_freq_to_bin() {
    let n = 100;
    let f_s: i64 = 1_000_000; // 1000 Hz

    assert_eq!(freq_to_bin(0, f_s, n), 0);
    assert_eq!(freq_to_bin(100_000, f_s, n), 10);
    assert_eq!(freq_to_bin(-100_000, f_s, n), 90);
}

#[test]
fn test_frequency_shift() {
    let n = 1000;
    let f_s: i64 = 10_000_000; // 10000 Hz
    let f_d: i64 = 1_000_000; // 1000 Hz

    // Impulse at 2000 Hz.
    let mut spectrum = vec![ComplexSample { re: 0, im: 0 }; n];
    let impulse_idx = 200;
    spectrum[impulse_idx] = ComplexSample { re: ONE, im: 0 };

    let shifted = frequency_shift(&spectrum, f_d, f_s, n);

    // Peaks at 1000 Hz and 3000 Hz, each half the impulse.
    let idx_1000 = 100;
    let idx_3000 = 300;
    assert!(norm(shifted[idx_1000]) > 0.4);
    assert!(norm(shifted[idx_3000]) > 0.4);
}

#[test]
fn test_frequency_shift_exact_halves() {
    // A whole-bin shift moves exactly half the impulse into each peak.
    let n = 1000;
    let f_s: i64 = 10_000_000;
    let f_d: i64 = 1_000_000; // shift of exactly 100 bins
    let mut spectrum = vec![ComplexSample { re: 0, im: 0 }; n];
    spectrum[200] = ComplexSample { re: ONE, im: 0 };

    let shifted = frequency_shift(&spectrum, f_d, f_s, n);

    assert_eq!(shifted[100], ComplexSample { re: ONE / 2, im: 0 });
    assert_eq!(shifted[300], ComplexSample { re: ONE / 2, im: 0 });
    assert_eq!(shifted[0], ComplexSample { re: 0, im: 0 });
}

#[test]
fn test_shift_strategies_agree() {
    // f_d * n / f_s = 5 exactly: both strategies must agree bin for bin.
    let n = 100;
    let f_s: i64 = 1_000_000;
    let f_d: i64 = 50_000;

    let spectrum: Vec<ComplexSample> = (0..n)
        .map(|i| ComplexSample {
            re: to_q(((i as f64) * 0.37).sin()),
            im: to_q(((i as f64) * 0.11).cos()),
        })
        .collect();

    let a = frequency_shift(&spectrum, f_d, f_s, n);
    let b = frequency_shift_explicit(&spectrum, f_d, f_s, n);

    assert_eq!(a, b);
}

#[test]
fn test_zero_shift_is_identity() {
    // A zero carrier shift degenerates to (X(f) + X(f)) / 2 == X(f): the
    // spectrum comes back unchanged, odd mantissas included.
    let n = 64;
    let f_s: i64 = 1_000_000;
    let spectrum: Vec<ComplexSample> = (0..n)
        .map(|i| ComplexSample { re: (i as i64) * 7 + 3, im: -(i as i64) * 13 - 5 })
        .collect();

    assert_eq!(frequency_shift(&spectrum, 0, f_s, n), spectrum);
    assert_eq!(frequency_shift_explicit(&spectrum, 0, f_s, n), spectrum);
}

#[test]
fn test_shift_strategies_agree_fractional() {
    // f_d * n / f_s = 3.7: the shift rounds to 4 bins without a tie, and
    // the two strategies still agree exactly.
    let n = 100;
    let f_s: i64 = 1_000_000;
    let f_d: i64 = 37_000;

    let spectrum: Vec<ComplexSample> = (0..n)
        .map(|i| ComplexSample { re: (i as i64 + 1) * 12345, im: -(i as i64) * 991 })
        .collect();

    let a = frequency_shift(&spectrum, f_d, f_s, n);
    let b = frequency_shift_explicit(&spectrum, f_d, f_s, n);

    assert_eq!(a, b);
}

#[test]
fn test_shift_strategies_diverge_at_tie() {
    // f_d * n / f_s = 0.5: the shift rounds at an exact tie, where the two
    // strategies legitimately pick different bins.
    let n = 100;
    let f_s: i64 = 1_000_000;
    let f_d: i64 = 5_000;

    let spectrum: Vec<ComplexSample> =
        (0..n).map(|i| ComplexSample { re: (i as i64) * ONE, im: 0 }).collect();

    let a = frequency_shift(&spectrum, f_d, f_s, n);
    let b = frequency_shift_explicit(&spectrum, f_d, f_s, n);

    assert_ne!(a, b);
}

#[test]
fn test_spectrum_axis_and_normalization() {
    // An 8-point transform of the constant unit signal: X[0] = 8, rest 0.
    let n = 8;
    let f_s: i64 = 1_000_000;
    let mut buffer = vec![ComplexSample { re: 0, im: 0 }; n];
    buffer[0] = ComplexSample { re: 8 * ONE, im: 0 };

    let points = compute_spectrum(&buffer, f_s, n);

    assert_eq!(points.len(), 4);
    for (i, p) in points.iter().enumerate() {
        // The axis rises from 0 in exact steps of f_s / n.
        assert_eq!(p.freq_num, i as i64 * f_s);
        assert_eq!(p.freq_den, n as i64);
    }
    // The DC magnitude is normalized back to exactly 1.
    assert!((from_q(points[0].mag) - 1.0).abs() < 1e-9);
    assert_eq!(points[1].mag, 0);
}

#[test]
fn test_spectrum_of_cosine_via_fft() {
    // A full pipeline check against a real FFT backend: a pure cosine at
    // bin 10 of a 100-point transform shows up with magnitude 1/2.
    let n = 100;
    let f_s: i64 = 1_000_000;
    let mut buffer: Vec<Complex<f64>> =
        (0..n).map(|i| Complex::new((2.0 * PI * 10.0 * (i as f64) / (n as f64)).cos(), 0.0)).collect();
    let mut planner = FftPlanner::new();
    let fft = planner.plan_fft_forward(n);
    fft.process(&mut buffer);

    let fixed: Vec<ComplexSample> =
        buffer.iter().map(|z| ComplexSample { re: to_q(z.re), im: to_q(z.im) }).collect();

    let points = compute_spectrum(&fixed, f_s, n);

    assert_eq!(points.len(), 50);
    assert!((from_q(points[10].mag) - 0.5).abs() < 1e-6);
    for (i, p) in points.iter().enumerate() {
        if i != 10 {
            assert!(from_q(p.mag) < 1e-6);
        }
    }
}
