use am_demod::carrier::multiply_with_carrier;
use am_demod::iir::apply_filter;
use std::f64::consts::PI;

const Q: f64 = 4294967296.0;

fn to_q(x: f64) -> i64 {
    (x * Q).round() as i64
}

fn carrier_table(n: usize, f_d: f64, f_s: f64) -> Vec<i64> {
    (0..n).map(|i| to_q((2.0 * PI * f_d * (i as f64) / f_s).cos())).collect()
}

#[test]
fn test_ordering_sensitivity() {
    // Demodulate one AM signal through four processing orders; the
    // pipeline is order-sensitive, so the outputs must not coincide.
    let n = 256;
    let f_s = 10000.0;
    let f_d = 3000.0;

    let signal: Vec<i64> = (0..n)
        .map(|i| {
            let t = i as f64 / f_s;
            let envelope = 1.0 + 0.5 * (2.0 * PI * 100.0 * t).cos();
            to_q(0.5 * envelope * (2.0 * PI * f_d * t).cos())
        })
        .collect();
    let carrier = carrier_table(n, f_d, f_s);

    let hp_b = vec![to_q(0.9), to_q(-0.9)];
    let hp_a = vec![to_q(1.0), to_q(-0.8)];
    let lp_b = vec![to_q(0.2), to_q(0.2)];
    let lp_a = vec![to_q(1.0), to_q(-0.6)];

    // High-pass -> multiply -> low-pass.
    let scheme_a = {
        let s1 = apply_filter(&signal, &hp_b, &hp_a);
        let s2 = multiply_with_carrier(&s1, &carrier);
        apply_filter(&s2, &lp_b, &lp_a)
    };
    // Low-pass -> multiply -> high-pass.
    let scheme_b = {
        let s1 = apply_filter(&signal, &lp_b, &lp_a);
        let s2 = multiply_with_carrier(&s1, &carrier);
        apply_filter(&s2, &hp_b, &hp_a)
    };
    // Multiply -> high-pass -> low-pass.
    let scheme_c = {
        let s1 = multiply_with_carrier(&signal, &carrier);
        let s2 = apply_filter(&s1, &hp_b, &hp_a);
        apply_filter(&s2, &lp_b, &lp_a)
    };
    // Multiply -> low-pass, skipping the high-pass.
    let scheme_d = {
        let s1 = multiply_with_carrier(&signal, &carrier);
        apply_filter(&s1, &lp_b, &lp_a)
    };

    assert_eq!(scheme_a.len(), n);
    assert_ne!(scheme_a, scheme_b);
    assert_ne!(scheme_a, scheme_c);
    assert_ne!(scheme_a, scheme_d);
    assert_ne!(scheme_b, scheme_c);
    assert_ne!(scheme_b, scheme_d);
    assert_ne!(scheme_c, scheme_d);
}
