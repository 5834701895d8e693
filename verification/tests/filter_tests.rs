use am_demod::carrier::multiply_with_carrier;
use am_demod::iir::apply_filter;
use std::f64::consts::PI;

const Q: f64 = 4294967296.0;

fn to_q(x: f64) -> i64 {
    (x * Q).round() as i64
}

fn from_q(m: i64) -> f64 {
    (m as f64) / Q
}

#[test]
fn test_simple_filter() {
    // Moving average: y[n] = 0.5*x[n] + 0.5*x[n-1]
    let b = vec![to_q(0.5), to_q(0.5)];
    let a = vec![to_q(1.0)];
    let input: Vec<i64> = [1.0, 2.0, 3.0, 4.0, 5.0].iter().map(|&x| to_q(x)).collect();

    let output = apply_filter(&input, &b, &a);

    // Expected: [0.5, 1.5, 2.5, 3.5, 4.5]
    assert!((from_q(output[0]) - 0.5).abs() < 1e-10);
    assert!((from_q(output[1]) - 1.5).abs() < 1e-10);
    assert!((from_q(output[2]) - 2.5).abs() < 1e-10);
}

#[test]
fn test_filter_length_and_empty() {
    let b = vec![to_q(0.5), to_q(0.5)];
    let a = vec![to_q(1.0)];
    let empty: Vec<i64> = vec![];
    assert_eq!(apply_filter(&empty, &b, &a).len(), 0);

    let input: Vec<i64> = (0..37).map(|i| to_q(i as f64 * 0.01)).collect();
    assert_eq!(apply_filter(&input, &b, &a).len(), 37);
}

#[test]
fn test_filter_feedback_exact() {
    // y[n] = x[n] + 0.5*y[n-1]: impulse response 1, 0.5, 0.25, 0.125
    let b = vec![to_q(1.0)];
    let a = vec![to_q(1.0), to_q(-0.5)];
    let input = vec![to_q(1.0), to_q(0.0), to_q(0.0), to_q(0.0)];

    let output = apply_filter(&input, &b, &a);

    assert!((from_q(output[0]) - 1.0).abs() < 1e-12);
    assert!((from_q(output[1]) - 0.5).abs() < 1e-12);
    assert!((from_q(output[2]) - 0.25).abs() < 1e-12);
    assert!((from_q(output[3]) - 0.125).abs() < 1e-12);
}

#[test]
fn test_filter_normalization_by_a0() {
    // a[0] = 2 halves every output: y[n] = x[n] / 2
    let b = vec![to_q(1.0)];
    let a = vec![to_q(2.0)];
    let input = vec![to_q(1.0), to_q(-3.0)];

    let output = apply_filter(&input, &b, &a);

    assert!((from_q(output[0]) - 0.5).abs() < 1e-10);
    assert!((from_q(output[1]) + 1.5).abs() < 1e-10);
}

#[test]
fn test_carrier_multiplication() {
    let f_d = 1000.0;
    let f_s = 8000.0;
    let signal = vec![to_q(1.0); 100];
    let carrier: Vec<i64> =
        (0..100).map(|i| to_q((2.0 * PI * f_d * (i as f64) / f_s).cos())).collect();

    let output = multiply_with_carrier(&signal, &carrier);

    assert_eq!(output.len(), 100);
    // At t = 0 the carrier is cos(0) = 1 and the product is doubled.
    assert!((from_q(output[0]) - 2.0).abs() < 1e-10);
}

#[test]
fn test_carrier_constant_signal_at_time_zero() {
    // Any constant amplitude comes out doubled at index 0.
    let signal = vec![to_q(0.25); 16];
    let carrier: Vec<i64> = (0..16).map(|i| to_q((0.7 * i as f64).cos())).collect();

    let output = multiply_with_carrier(&signal, &carrier);

    assert_eq!(output.len(), 16);
    assert!((from_q(output[0]) - 0.5).abs() < 1e-10);
}
