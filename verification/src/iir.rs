//! Recursive (IIR) digital filter in Direct Form: each output sample is the
//! rounded fixed-point evaluation of the difference equation
//! `y[n] = (sum_k b[k]*x[n-k] - sum_{k>=1} a[k]*y[n-k]) / a[0]`,
//! with zero-initialized history, so every call starts from rest.

use vstd::prelude::*;
use crate::fixed::{round_div_signed, sat64, round_div_i128, sat64_i128};

verus! {

/// Largest coefficient mantissa the filter accepts (magnitude 65536.0).
pub const MAX_COEF: i64 = 0x1_0000_0000_0000;

/// Largest number of coefficients over both sequences together.
pub const MAX_TAPS: usize = 32768;

/// Feedforward partial sum `sum_{j < k} b[j] * x[n - j]`; terms that would
/// reach before the start of the signal are absent.
pub open spec fn ff_sum(x: Seq<i64>, b: Seq<i64>, n: int, k: int) -> int
    recommends
        0 <= n < x.len(),
        k <= b.len(),
    decreases k,
{
    if k <= 0 {
        0
    } else {
        ff_sum(x, b, n, k - 1) + if n - (k - 1) >= 0 {
            b[k - 1] * x[n - (k - 1)]
        } else {
            0
        }
    }
}

/// Feedback partial sum `sum_{1 <= j < k} a[j] * y[n - j]` over the filter's
/// own earlier outputs; terms before the start of the signal are absent.
pub open spec fn fb_sum(x: Seq<i64>, b: Seq<i64>, a: Seq<i64>, n: int, k: int) -> int
    recommends
        0 <= n < x.len(),
        k <= a.len(),
    decreases n, 0int, k,
{
    if k <= 1 {
        0
    } else {
        fb_sum(x, b, a, n, k - 1) + if n - (k - 1) >= 0 {
            a[k - 1] * iir_y(x, b, a, n - (k - 1))
        } else {
            0
        }
    }
}

/// The stored output sample at index `n`: the difference equation evaluated
/// in exact integer arithmetic, normalized by `a[0]` with rounding to
/// nearest (halves away from zero), and saturated to the mantissa range.
pub open spec fn iir_y(x: Seq<i64>, b: Seq<i64>, a: Seq<i64>, n: int) -> int
    recommends
        0 <= n < x.len(),
        b.len() >= 1,
        a.len() >= 1,
        a[0] != 0,
    decreases n, 1int, 0int,
{
    if n < 0 {
        0
    } else {
        sat64(round_div_signed(
            ff_sum(x, b, n, b.len() as int) - fb_sum(x, b, a, n, a.len() as int),
            a[0] as int,
        ))
    }
}

/// Apply the filter to a whole buffer. The output has the input's length,
/// and every sample equals the difference equation's value at its index.
pub fn apply_filter(input: &Vec<i64>, b: &Vec<i64>, a: &Vec<i64>) -> (out: Vec<i64>)
    requires
        1 <= b.len(),
        1 <= a.len(),
        b.len() + a.len() <= MAX_TAPS,
        a[0] != 0,
        forall|k: int| 0 <= k < b.len() ==> -MAX_COEF <= #[trigger] b[k] <= MAX_COEF,
        forall|k: int| 0 <= k < a.len() ==> -MAX_COEF <= #[trigger] a[k] <= MAX_COEF,
    ensures
        out.len() == input.len(),
        forall|i: int| 0 <= i < input.len() ==> out[i] == iir_y(input@, b@, a@, i),
{
    let n = input.len();
    let blen = b.len();
    let alen = a.len();
    let mut out: Vec<i64> = Vec::new();
    let mut i: usize = 0;
    while i < n
        invariant
            i <= n,
            n == input.len(),
            blen == b.len(),
            alen == a.len(),
            1 <= blen,
            1 <= alen,
            blen + alen <= MAX_TAPS,
            a[0] != 0,
            forall|k: int| 0 <= k < b.len() ==> -MAX_COEF <= #[trigger] b[k] <= MAX_COEF,
            forall|k: int| 0 <= k < a.len() ==> -MAX_COEF <= #[trigger] a[k] <= MAX_COEF,
            out.len() == i,
            forall|j: int| 0 <= j < i ==> out[j] == iir_y(input@, b@, a@, j),
        decreases n - i,
    {
        let mut acc: i128 = 0;
        let mut k: usize = 0;
        while k < blen
            invariant
                k <= blen,
                i < n,
                n == input.len(),
                blen == b.len(),
                1 <= blen,
                blen + alen <= MAX_TAPS,
                forall|j: int| 0 <= j < b.len() ==> -MAX_COEF <= #[trigger] b[j] <= MAX_COEF,
                acc == ff_sum(input@, b@, i as int, k as int),
                -(k as int) * 0x8000_0000_0000_0000_0000_0000_0000 <= acc
                    <= (k as int) * 0x8000_0000_0000_0000_0000_0000_0000,
            decreases blen - k,
        {
            proof {
                assert((k as int) * 0x8000_0000_0000_0000_0000_0000_0000
                    <= 32768 * 0x8000_0000_0000_0000_0000_0000_0000
                    && ((k + 1) as int) * 0x8000_0000_0000_0000_0000_0000_0000
                    == (k as int) * 0x8000_0000_0000_0000_0000_0000_0000
                        + 0x8000_0000_0000_0000_0000_0000_0000) by (nonlinear_arith)
                    requires
                        0 <= k <= 32768;
            }
            if k <= i {
                let xi = input[i - k];
                let bk = b[k];
                proof {
                    assert(-0x8000_0000_0000_0000_0000_0000_0000 <= (bk as int) * (xi as int)
                        <= 0x8000_0000_0000_0000_0000_0000_0000) by (nonlinear_arith)
                        requires
                            -0x1_0000_0000_0000 <= bk <= 0x1_0000_0000_0000,
                            -0x8000_0000_0000_0000 <= xi <= 0x7fff_ffff_ffff_ffff;
                }
                let t: i128 = (bk as i128) * (xi as i128);
                acc = acc + t;
            }
            k = k + 1;
        }
        let mut k2: usize = 1;
        while k2 < alen
            invariant
                1 <= k2 <= alen,
                i < n,
                n == input.len(),
                blen == b.len(),
                alen == a.len(),
                1 <= blen,
                1 <= alen,
                blen + alen <= MAX_TAPS,
                out.len() == i,
                forall|j: int| 0 <= j < i ==> out[j] == iir_y(input@, b@, a@, j),
                forall|j: int| 0 <= j < a.len() ==> -MAX_COEF <= #[trigger] a[j] <= MAX_COEF,
                acc == ff_sum(input@, b@, i as int, blen as int)
                    - fb_sum(input@, b@, a@, i as int, k2 as int),
                -((blen + k2) as int) * 0x8000_0000_0000_0000_0000_0000_0000 <= acc
                    <= ((blen + k2) as int) * 0x8000_0000_0000_0000_0000_0000_0000,
            decreases alen - k2,
        {
            proof {
                assert(((blen + k2) as int) * 0x8000_0000_0000_0000_0000_0000_0000
                    <= 32768 * 0x8000_0000_0000_0000_0000_0000_0000
                    && ((blen + k2 + 1) as int) * 0x8000_0000_0000_0000_0000_0000_0000
                    == ((blen + k2) as int) * 0x8000_0000_0000_0000_0000_0000_0000
                        + 0x8000_0000_0000_0000_0000_0000_0000) by (nonlinear_arith)
                    requires
                        0 <= blen + k2 <= 32768;
            }
            if k2 <= i {
                let yk = out[i - k2];
                let ak = a[k2];
                proof {
                    assert(-0x8000_0000_0000_0000_0000_0000_0000 <= (ak as int) * (yk as int)
                        <= 0x8000_0000_0000_0000_0000_0000_0000) by (nonlinear_arith)
                        requires
                            -0x1_0000_0000_0000 <= ak <= 0x1_0000_0000_0000,
                            -0x8000_0000_0000_0000 <= yk <= 0x7fff_ffff_ffff_ffff;
                }
                let t: i128 = (ak as i128) * (yk as i128);
                acc = acc - t;
            }
            k2 = k2 + 1;
        }
        proof {
            assert(((blen + alen) as int) * 0x8000_0000_0000_0000_0000_0000_0000
                <= 32768 * 0x8000_0000_0000_0000_0000_0000_0000) by (nonlinear_arith)
                requires
                    0 <= blen + alen <= 32768;
        }
        let a0 = a[0];
        let y: i128 = if a0 > 0 {
            round_div_i128(acc, a0 as i128)
        } else {
            round_div_i128(-acc, (-a0) as i128)
        };
        let yi: i64 = sat64_i128(y);
        out.push(yi);
        i = i + 1;
    }
    out
}

} // verus!
