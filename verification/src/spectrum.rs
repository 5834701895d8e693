//! The complex spectral buffer and the one-sided magnitude spectrum.
//!
//! A `ComplexSample` holds one bin of a full two-sided discrete spectrum as
//! a pair of Q32.32 mantissas. Bin `i` of an `n`-point buffer stands for
//! the frequency `bins::spec_bin_offset(i, n) * f_s / n`. The discrete
//! Fourier transform itself is the caller's (floating-point) business; this
//! module turns its complex output into the one-sided magnitude spectrum.

use vstd::prelude::*;
use crate::fixed::{round_div, sat64, round_div_i128, sat64_i128};
use crate::bins::MAX_BINS;

verus! {

/// One bin of a complex spectral buffer, in Q32.32 fixed point.
#[derive(Clone, Copy, Debug, PartialEq, Eq, Structural)]
pub struct ComplexSample {
    pub re: i64,
    pub im: i64,
}

/// The zero bin.
pub open spec fn czero() -> ComplexSample {
    ComplexSample { re: 0, im: 0 }
}

/// An exec zero bin.
pub fn complex_zero() -> (z: ComplexSample)
    ensures
        z == czero(),
{
    ComplexSample { re: 0, im: 0 }
}

/// One point of a one-sided magnitude spectrum: the frequency is the exact
/// rational `freq_num / freq_den` millihertz, the magnitude a Q32.32
/// mantissa.
#[derive(Clone, Copy, Debug, PartialEq, Eq, Structural)]
pub struct SpectrumPoint {
    pub freq_num: i64,
    pub freq_den: i64,
    pub mag: i64,
}

/// `r` is the integer square root of `v`, rounded down.
pub open spec fn is_sqrt_floor(v: int, r: int) -> bool {
    0 <= r && r * r <= v && v < (r + 1) * (r + 1)
}

/// The integer square root, rounded down: the unique `r` with
/// `r * r <= v < (r + 1) * (r + 1)`.
pub open spec fn sqrt_floor(v: int) -> int
    recommends
        v >= 0,
{
    choose|r: int| is_sqrt_floor(v, r)
}

/// Every nonnegative integer has an integer square root.
pub proof fn lemma_sqrt_floor_exists(v: int)
    requires
        v >= 0,
    ensures
        is_sqrt_floor(v, sqrt_floor(v)),
    decreases v,
{
    if v == 0 {
        assert(is_sqrt_floor(0, 0));
    } else {
        lemma_sqrt_floor_exists(v - 1);
        let r0 = sqrt_floor(v - 1);
        if v < (r0 + 1) * (r0 + 1) {
            assert(is_sqrt_floor(v, r0));
        } else {
            assert(is_sqrt_floor(v, r0 + 1)) by (nonlinear_arith)
                requires
                    0 <= r0,
                    r0 * r0 <= v - 1,
                    v - 1 < (r0 + 1) * (r0 + 1),
                    v >= (r0 + 1) * (r0 + 1);
        }
    }
}

/// The integer square root is unique.
pub proof fn lemma_sqrt_floor_unique(v: int, r1: int, r2: int)
    requires
        is_sqrt_floor(v, r1),
        is_sqrt_floor(v, r2),
    ensures
        r1 == r2,
{
    assert(r1 == r2) by (nonlinear_arith)
        requires
            0 <= r1,
            0 <= r2,
            r1 * r1 <= v,
            v < (r1 + 1) * (r1 + 1),
            r2 * r2 <= v,
            v < (r2 + 1) * (r2 + 1);
}

/// Integer square root by bisection.
pub fn isqrt_u128(v: u128) -> (r: u64)
    ensures
        is_sqrt_floor(v as int, r as int),
        r as int == sqrt_floor(v as int),
{
    let mut lo: u128 = 0;
    let mut hi: u128 = 0x1_0000_0000_0000_0000;
    while hi - lo > 1
        invariant
            lo < hi <= 0x1_0000_0000_0000_0000,
            (lo as int) * (lo as int) <= v,
            (v as int) < (hi as int) * (hi as int),
        decreases hi - lo,
    {
        let mid: u128 = lo + (hi - lo) / 2;
        proof {
            assert((mid as int) * (mid as int) < 0x1_0000_0000_0000_0000_0000_0000_0000_0000)
                by (nonlinear_arith)
                requires
                    0 <= mid <= 0xffff_ffff_ffff_ffff;
        }
        if mid * mid <= v {
            lo = mid;
        } else {
            hi = mid;
        }
    }
    proof {
        lemma_sqrt_floor_exists(v as int);
        lemma_sqrt_floor_unique(v as int, lo as int, sqrt_floor(v as int));
    }
    lo as u64
}

/// The squared modulus of a bin, an exact integer.
pub open spec fn spec_norm2(z: ComplexSample) -> int {
    (z.re as int) * (z.re as int) + (z.im as int) * (z.im as int)
}

/// The magnitude mantissa of one bin of an `n`-point transform: the modulus
/// divided by `n` (the spectrum normalization), rounded, saturated.
pub open spec fn spec_bin_mag(z: ComplexSample, n: int) -> int
    recommends
        n >= 1,
{
    sat64(round_div(sqrt_floor(spec_norm2(z)), n))
}

/// Build the one-sided magnitude spectrum from an `n`-point complex
/// transform of the signal: exactly `n / 2` points, point `i` at frequency
/// `i * f_s / n` (an exact rational, numerator over `freq_den == n`) with
/// the normalized magnitude `|X[i]| / n`.
pub fn compute_spectrum(buffer: &Vec<ComplexSample>, f_s: i64, n: usize) -> (out: Vec<
    SpectrumPoint,
>)
    requires
        n == buffer.len(),
        1 <= n <= MAX_BINS,
        1 <= f_s,
        (n as int) * (f_s as int) <= 0x7fff_ffff_ffff_ffff,
    ensures
        out.len() == n / 2,
        forall|i: int|
            0 <= i < n / 2 ==> (#[trigger] out[i]).freq_num == i * (f_s as int) && out[i].freq_den
                == n && out[i].mag == spec_bin_mag(buffer[i], n as int),
{
    let half_n = n / 2;
    let mut out: Vec<SpectrumPoint> = Vec::new();
    let mut i: usize = 0;
    while i < half_n
        invariant
            i <= half_n,
            half_n == n / 2,
            n == buffer.len(),
            1 <= n <= MAX_BINS,
            1 <= f_s,
            (n as int) * (f_s as int) <= 0x7fff_ffff_ffff_ffff,
            out.len() == i,
            forall|j: int|
                0 <= j < i ==> (#[trigger] out[j]).freq_num == j * (f_s as int) && out[j].freq_den
                    == n && out[j].mag == spec_bin_mag(buffer[j], n as int),
        decreases half_n - i,
    {
        proof {
            assert(0 <= (i as int) * (f_s as int) && (i as int) * (f_s as int) <= (n as int) * (
            f_s as int)) by (nonlinear_arith)
                requires
                    0 <= i < n,
                    1 <= f_s;
        }
        let freq_num: i64 = ((i as i128) * (f_s as i128)) as i64;
        let z = buffer[i];
        proof {
            assert(0 <= (z.re as int) * (z.re as int)
                && (z.re as int) * (z.re as int) <= 0x4000_0000_0000_0000_0000_0000_0000_0000
                && 0 <= (z.im as int) * (z.im as int)
                && (z.im as int) * (z.im as int) <= 0x4000_0000_0000_0000_0000_0000_0000_0000)
                by (nonlinear_arith)
                requires
                    -0x8000_0000_0000_0000 <= z.re <= 0x7fff_ffff_ffff_ffff,
                    -0x8000_0000_0000_0000 <= z.im <= 0x7fff_ffff_ffff_ffff;
        }
        let re2: u128 = ((z.re as i128) * (z.re as i128)) as u128;
        let im2: u128 = ((z.im as i128) * (z.im as i128)) as u128;
        let norm2: u128 = re2 + im2;
        let root: u64 = isqrt_u128(norm2);
        let mag_wide: i128 = round_div_i128(root as i128, n as i128);
        let mag: i64 = sat64_i128(mag_wide);
        out.push(SpectrumPoint { freq_num, freq_den: n as i64, mag });
        i = i + 1;
    }
    out
}

/// The frequency axis of a one-sided spectrum rises strictly from zero in
/// steps of `f_s / n`.
pub proof fn lemma_axis_strictly_increasing(points: Seq<SpectrumPoint>, f_s: int, n: int)
    requires
        f_s >= 1,
        forall|i: int|
            0 <= i < points.len() ==> (#[trigger] points[i]).freq_num == i * f_s
                && points[i].freq_den == n,
    ensures
        forall|i: int, j: int|
            0 <= i < j < points.len() ==> (#[trigger] points[i]).freq_num < (
            #[trigger] points[j]).freq_num,
        points.len() > 0 ==> points[0].freq_num == 0,
{
    assert forall|i: int, j: int| 0 <= i < j < points.len() implies (#[trigger] points[i]).freq_num
        < (#[trigger] points[j]).freq_num by {
        assert(i * f_s < j * f_s) by (nonlinear_arith)
            requires
                i < j,
                f_s >= 1;
    }
}

} // verus!
