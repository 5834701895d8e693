//! Coherent-demodulation multiply: sample-by-sample product with a cosine
//! carrier. The caller supplies the carrier samples `cos(2*pi*f_d*i/f_s)`
//! as Q32.32 mantissas; the product is doubled to undo the half-amplitude
//! term of `cos^2(x) = (1 + cos(2x)) / 2`.

use vstd::prelude::*;
use crate::fixed::{qmul, sat64, qmul_sat, FRAC_ONE, lemma_round_div_exact};

verus! {

/// The demodulating product at one index: twice the fixed-point product of
/// the sample and the carrier value, saturated to the mantissa range.
pub open spec fn carrier_product(x: int, c: int) -> int {
    sat64(2 * qmul(x, c))
}

/// Multiply a signal with a carrier, element by element. The output has the
/// signal's length and every sample is exactly the doubled fixed-point
/// product of the sample and its carrier value.
pub fn multiply_with_carrier(signal: &Vec<i64>, carrier: &Vec<i64>) -> (out: Vec<i64>)
    requires
        signal.len() == carrier.len(),
    ensures
        out.len() == signal.len(),
        forall|i: int| 0 <= i < signal.len()
            ==> out[i] == carrier_product(signal[i] as int, carrier[i] as int),
{
    let n = signal.len();
    let mut out: Vec<i64> = Vec::new();
    let mut i: usize = 0;
    while i < n
        invariant
            i <= n,
            n == signal.len(),
            signal.len() == carrier.len(),
            out.len() == i,
            forall|j: int| 0 <= j < i
                ==> out[j] == carrier_product(signal[j] as int, carrier[j] as int),
        decreases n - i,
    {
        let q: i64 = qmul_sat(signal[i], carrier[i]);
        let d: i128 = 2 * (q as i128);
        let y: i64 = crate::fixed::sat64_i128(d);
        proof {
            // Doubling after saturation lands on the same value as
            // saturating the doubled exact product.
            assert(sat64(2 * sat64(qmul(signal[i as int] as int, carrier[i as int] as int)))
                == carrier_product(signal[i as int] as int, carrier[i as int] as int));
        }
        out.push(y);
        i = i + 1;
    }
    out
}

/// At a carrier value of exactly 1.0 (as at time zero, where cos(0) = 1)
/// the demodulating product is twice the sample: exactly, whenever the
/// doubled mantissa fits.
pub proof fn lemma_carrier_unit(x: i64)
    ensures
        carrier_product(x as int, FRAC_ONE as int) == sat64(2 * x),
        -0x4000_0000_0000_0000 <= x <= 0x3fff_ffff_ffff_ffff ==> carrier_product(
            x as int,
            FRAC_ONE as int,
        ) == 2 * x,
{
    lemma_round_div_exact(x as int, FRAC_ONE as int);
}

} // verus!
