//! Ideal brick-wall filters applied directly to a complex spectral buffer:
//! a bin is either passed through untouched or zeroed, depending on how its
//! signed frequency compares with the cutoff. There is no transition band
//! and no phase effect.

use vstd::prelude::*;
use vstd::math::abs;
use crate::bins::{spec_bin_offset, bin_offset, MAX_BINS, MAX_FREQ};
use crate::spectrum::{ComplexSample, czero, complex_zero};

verus! {

/// A high-pass zeroes bin `i` when its frequency magnitude lies strictly
/// below the cutoff: `|offset * f_s / n| < f_c`, cross-multiplied by `n` so
/// the comparison is exact.
pub open spec fn spec_stopped_high(i: int, n: int, f_c: int, f_s: int) -> bool {
    abs(spec_bin_offset(i, n)) * f_s < f_c * n
}

/// A low-pass zeroes bin `i` when its frequency magnitude lies strictly
/// above the cutoff: `|offset * f_s / n| > f_c`.
pub open spec fn spec_stopped_low(i: int, n: int, f_c: int, f_s: int) -> bool {
    abs(spec_bin_offset(i, n)) * f_s > f_c * n
}

/// Ideal high-pass: every bin whose frequency magnitude is below the cutoff
/// `f_c` (millihertz) is zeroed; every other bin passes unchanged.
pub fn apply_highpass(spectrum: &Vec<ComplexSample>, f_c: i64, f_s: i64, n: usize) -> (out: Vec<
    ComplexSample,
>)
    requires
        n == spectrum.len(),
        1 <= n <= MAX_BINS,
        1 <= f_s <= MAX_FREQ,
        0 <= f_c <= MAX_FREQ,
    ensures
        out.len() == n,
        forall|i: int|
            0 <= i < n ==> out[i] == (if spec_stopped_high(i, n as int, f_c as int, f_s as int) {
                czero()
            } else {
                spectrum[i]
            }),
{
    let mut out: Vec<ComplexSample> = Vec::new();
    let mut i: usize = 0;
    while i < n
        invariant
            i <= n,
            n == spectrum.len(),
            1 <= n <= MAX_BINS,
            1 <= f_s <= MAX_FREQ,
            0 <= f_c <= MAX_FREQ,
            out.len() == i,
            forall|j: int|
                0 <= j < i ==> out[j] == (if spec_stopped_high(
                    j,
                    n as int,
                    f_c as int,
                    f_s as int,
                ) {
                    czero()
                } else {
                    spectrum[j]
                }),
        decreases n - i,
    {
        let off: i64 = bin_offset(i, n);
        let mag: i64 = if off >= 0 {
            off
        } else {
            -off
        };
        proof {
            assert((mag as int) * (f_s as int) <= 0x4000_0000_0000_0000_0000
                && (mag as int) * (f_s as int) >= 0) by (nonlinear_arith)
                requires
                    0 <= mag <= 0x4000_0000,
                    1 <= f_s <= 0x4000_0000_0000;
            assert(0 <= (f_c as int) * (n as int) <= 0x4000_0000_0000_0000_0000)
                by (nonlinear_arith)
                requires
                    0 <= f_c <= 0x4000_0000_0000,
                    1 <= n <= 0x4000_0000;
        }
        let lhs: i128 = (mag as i128) * (f_s as i128);
        let rhs: i128 = (f_c as i128) * (n as i128);
        if lhs < rhs {
            out.push(complex_zero());
        } else {
            out.push(spectrum[i]);
        }
        i = i + 1;
    }
    out
}

/// Ideal low-pass: every bin whose frequency magnitude is above the cutoff
/// `f_c` (millihertz) is zeroed; every other bin passes unchanged.
pub fn apply_lowpass(spectrum: &Vec<ComplexSample>, f_c: i64, f_s: i64, n: usize) -> (out: Vec<
    ComplexSample,
>)
    requires
        n == spectrum.len(),
        1 <= n <= MAX_BINS,
        1 <= f_s <= MAX_FREQ,
        0 <= f_c <= MAX_FREQ,
    ensures
        out.len() == n,
        forall|i: int|
            0 <= i < n ==> out[i] == (if spec_stopped_low(i, n as int, f_c as int, f_s as int) {
                czero()
            } else {
                spectrum[i]
            }),
{
    let mut out: Vec<ComplexSample> = Vec::new();
    let mut i: usize = 0;
    while i < n
        invariant
            i <= n,
            n == spectrum.len(),
            1 <= n <= MAX_BINS,
            1 <= f_s <= MAX_FREQ,
            0 <= f_c <= MAX_FREQ,
            out.len() == i,
            forall|j: int|
                0 <= j < i ==> out[j] == (if spec_stopped_low(
                    j,
                    n as int,
                    f_c as int,
                    f_s as int,
                ) {
                    czero()
                } else {
                    spectrum[j]
                }),
        decreases n - i,
    {
        let off: i64 = bin_offset(i, n);
        let mag: i64 = if off >= 0 {
            off
        } else {
            -off
        };
        proof {
            assert((mag as int) * (f_s as int) <= 0x4000_0000_0000_0000_0000
                && (mag as int) * (f_s as int) >= 0) by (nonlinear_arith)
                requires
                    0 <= mag <= 0x4000_0000,
                    1 <= f_s <= 0x4000_0000_0000;
            assert(0 <= (f_c as int) * (n as int) <= 0x4000_0000_0000_0000_0000)
                by (nonlinear_arith)
                requires
                    0 <= f_c <= 0x4000_0000_0000,
                    1 <= n <= 0x4000_0000;
        }
        let lhs: i128 = (mag as i128) * (f_s as i128);
        let rhs: i128 = (f_c as i128) * (n as i128);
        if lhs > rhs {
            out.push(complex_zero());
        } else {
            out.push(spectrum[i]);
        }
        i = i + 1;
    }
    out
}

} // verus!
