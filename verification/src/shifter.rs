//! Frequency-domain shifter: synthesizes `X_b(f) = (X(f - f_d) + X(f + f_d)) / 2`,
//! the spectral identity of multiplying a time-domain signal by a cosine
//! carrier. Two strategies are kept side by side for cross-validation: one
//! shifts by a bin count rounded once, the other recovers each bin's signed
//! frequency and maps the two target frequencies back to bins.

use vstd::prelude::*;
use vstd::arithmetic::div_mod::{
    lemma_fundamental_div_mod, lemma_mod_division_less_than_divisor, lemma_small_mod,
};
use crate::fixed::{
    round_div, round_div_signed, sat64, round_div_i128, sat64_i128, lemma_round_div_bound,
    lemma_round_div_exact, lemma_round_div_unique,
};
use crate::bins::{spec_bin_offset, spec_wrap, bin_offset, wrap_index, MAX_BINS, MAX_FREQ};
use crate::spectrum::ComplexSample;

verus! {

/// The carrier shift expressed in whole bins: `round(f_d * n / f_s)`.
pub open spec fn spec_shift_bins(f_d: int, f_s: int, n: int) -> int
    recommends
        f_s > 0,
{
    round_div_signed(f_d * n, f_s)
}

/// The 0.5/0.5-weighted sum of two contributions: the halves are exact and
/// only their sum rounds (halves away from zero), so summing a bin with
/// itself gives the bin back.
pub open spec fn spec_half_sum(x: int, y: int) -> int {
    sat64(round_div(x + y, 2))
}

/// Map a frequency (millihertz) to the nearest bin of an `n`-point
/// spectrum: negative frequencies are first lifted by `f_s`, the result is
/// rounded to a bin and wrapped circularly.
pub open spec fn spec_freq_to_bin(freq: int, f_s: int, n: int) -> int
    recommends
        f_s > 0,
        n > 0,
{
    let normalized = if freq >= 0 {
        freq
    } else {
        freq + f_s
    };
    spec_wrap(round_div_signed(normalized * n, f_s), n)
}

/// The same mapping for a frequency given as the exact rational `num / n`
/// millihertz, as the explicit strategy produces it for bin frequencies.
pub open spec fn spec_bin_of_scaled(num: int, f_s: int, n: int) -> int
    recommends
        f_s > 0,
        n > 0,
{
    let adjusted = if num >= 0 {
        num
    } else {
        num + f_s * n
    };
    spec_wrap(round_div_signed(adjusted, f_s), n)
}

/// Real part of the shifted spectrum at bin `i` under the bin-count
/// strategy.
pub open spec fn spec_shift_out_re(s: Seq<ComplexSample>, f_d: int, f_s: int, n: int, i: int) -> int {
    spec_half_sum(
        s[spec_wrap(i + spec_shift_bins(f_d, f_s, n), n)].re as int,
        s[spec_wrap(i - spec_shift_bins(f_d, f_s, n), n)].re as int,
    )
}

/// Imaginary part of the shifted spectrum at bin `i` under the bin-count
/// strategy.
pub open spec fn spec_shift_out_im(s: Seq<ComplexSample>, f_d: int, f_s: int, n: int, i: int) -> int {
    spec_half_sum(
        s[spec_wrap(i + spec_shift_bins(f_d, f_s, n), n)].im as int,
        s[spec_wrap(i - spec_shift_bins(f_d, f_s, n), n)].im as int,
    )
}

/// Source bin for the downward-shifted contribution at bin `i` under the
/// explicit-frequency strategy: the bin of `f_i - f_d`.
pub open spec fn spec_explicit_minus(i: int, f_d: int, f_s: int, n: int) -> int {
    spec_bin_of_scaled(spec_bin_offset(i, n) * f_s - f_d * n, f_s, n)
}

/// Source bin for the upward-shifted contribution at bin `i` under the
/// explicit-frequency strategy: the bin of `f_i + f_d`.
pub open spec fn spec_explicit_plus(i: int, f_d: int, f_s: int, n: int) -> int {
    spec_bin_of_scaled(spec_bin_offset(i, n) * f_s + f_d * n, f_s, n)
}

/// Real part of the shifted spectrum at bin `i` under the
/// explicit-frequency strategy.
pub open spec fn spec_explicit_out_re(
    s: Seq<ComplexSample>,
    f_d: int,
    f_s: int,
    n: int,
    i: int,
) -> int {
    spec_half_sum(
        s[spec_explicit_minus(i, f_d, f_s, n)].re as int,
        s[spec_explicit_plus(i, f_d, f_s, n)].re as int,
    )
}

/// Imaginary part of the shifted spectrum at bin `i` under the
/// explicit-frequency strategy.
pub open spec fn spec_explicit_out_im(
    s: Seq<ComplexSample>,
    f_d: int,
    f_s: int,
    n: int,
    i: int,
) -> int {
    spec_half_sum(
        s[spec_explicit_minus(i, f_d, f_s, n)].im as int,
        s[spec_explicit_plus(i, f_d, f_s, n)].im as int,
    )
}

/// The 0.5/0.5-weighted sum of two bins' worth of contribution.
fn half_sum(x: i64, y: i64) -> (r: i64)
    ensures
        r == spec_half_sum(x as int, y as int),
{
    let sum: i128 = (x as i128) + (y as i128);
    sat64_i128(round_div_i128(sum, 2))
}

/// Map a frequency (millihertz) to the nearest bin, wrapping negative
/// frequencies circularly across the spectrum.
pub fn freq_to_bin(freq: i64, f_s: i64, n: usize) -> (bin: usize)
    requires
        1 <= n <= MAX_BINS,
        1 <= f_s <= MAX_FREQ,
        -MAX_FREQ <= freq <= MAX_FREQ,
    ensures
        bin == spec_freq_to_bin(freq as int, f_s as int, n as int),
        bin < n,
{
    let normalized: i64 = if freq >= 0 {
        freq
    } else {
        freq + f_s
    };
    proof {
        assert(-0x8000_0000_0000_0000_0000 <= (normalized as int) * (n as int)
            <= 0x8000_0000_0000_0000_0000) by (nonlinear_arith)
            requires
                -0x8000_0000_0000 <= normalized <= 0x8000_0000_0000,
                1 <= n <= 0x4000_0000;
    }
    let scaled: i128 = (normalized as i128) * (n as i128);
    proof {
        lemma_round_div_bound(scaled as int, f_s as int);
    }
    let rounded: i128 = round_div_i128(scaled, f_s as i128);
    wrap_index(rounded, n)
}

/// Shift a spectrum by a carrier frequency `f_d`, rounding the shift to a
/// whole number of bins once. Each output bin receives half the bin shifted
/// down and half the bin shifted up, with circular wraparound.
pub fn frequency_shift(spectrum: &Vec<ComplexSample>, f_d: i64, f_s: i64, n: usize) -> (out: Vec<
    ComplexSample,
>)
    requires
        n == spectrum.len(),
        1 <= n <= MAX_BINS,
        1 <= f_s <= MAX_FREQ,
        -MAX_FREQ <= f_d <= MAX_FREQ,
    ensures
        out.len() == n,
        forall|i: int|
            0 <= i < n ==> out[i].re == spec_shift_out_re(
                spectrum@,
                f_d as int,
                f_s as int,
                n as int,
                i,
            ) && out[i].im == spec_shift_out_im(spectrum@, f_d as int, f_s as int, n as int, i),
{
    proof {
        assert(-0x4000_0000_0000_0000_0000 <= (f_d as int) * (n as int)
            <= 0x4000_0000_0000_0000_0000) by (nonlinear_arith)
            requires
                -0x4000_0000_0000 <= f_d <= 0x4000_0000_0000,
                1 <= n <= 0x4000_0000;
    }
    let scaled: i128 = (f_d as i128) * (n as i128);
    proof {
        lemma_round_div_bound(scaled as int, f_s as int);
    }
    let sb: i128 = round_div_i128(scaled, f_s as i128);
    let mut out: Vec<ComplexSample> = Vec::new();
    let mut i: usize = 0;
    while i < n
        invariant
            i <= n,
            n == spectrum.len(),
            1 <= n <= MAX_BINS,
            sb as int == spec_shift_bins(f_d as int, f_s as int, n as int),
            -0x8000_0000_0000_0000_0000 <= sb <= 0x8000_0000_0000_0000_0000,
            out.len() == i,
            forall|j: int|
                0 <= j < i ==> out[j].re == spec_shift_out_re(
                    spectrum@,
                    f_d as int,
                    f_s as int,
                    n as int,
                    j,
                ) && out[j].im == spec_shift_out_im(spectrum@, f_d as int, f_s as int, n as int, j),
        decreases n - i,
    {
        let idx_minus: usize = wrap_index((i as i128) + sb, n);
        let idx_plus: usize = wrap_index((i as i128) - sb, n);
        let re = half_sum(spectrum[idx_minus].re, spectrum[idx_plus].re);
        let im = half_sum(spectrum[idx_minus].im, spectrum[idx_plus].im);
        out.push(ComplexSample { re, im });
        i = i + 1;
    }
    out
}

/// Shift a spectrum by a carrier frequency `f_d`, recovering each bin's
/// signed frequency explicitly and mapping `f_i - f_d` and `f_i + f_d` back
/// to bins separately. Equivalent to `frequency_shift` whenever the shift
/// does not round at an exact tie (`lemma_shift_strategies_agree`); kept as
/// a second strategy for cross-validation.
pub fn frequency_shift_explicit(
    spectrum: &Vec<ComplexSample>,
    f_d: i64,
    f_s: i64,
    n: usize,
) -> (out: Vec<ComplexSample>)
    requires
        n == spectrum.len(),
        1 <= n <= MAX_BINS,
        1 <= f_s <= MAX_FREQ,
        -MAX_FREQ <= f_d <= MAX_FREQ,
    ensures
        out.len() == n,
        forall|i: int|
            0 <= i < n ==> out[i].re == spec_explicit_out_re(
                spectrum@,
                f_d as int,
                f_s as int,
                n as int,
                i,
            ) && out[i].im == spec_explicit_out_im(spectrum@, f_d as int, f_s as int, n as int, i),
{
    proof {
        assert(-0x4000_0000_0000_0000_0000 <= (f_d as int) * (n as int)
            <= 0x4000_0000_0000_0000_0000) by (nonlinear_arith)
            requires
                -0x4000_0000_0000 <= f_d <= 0x4000_0000_0000,
                1 <= n <= 0x4000_0000;
    }
    let shift_scaled: i128 = (f_d as i128) * (n as i128);
    let mut out: Vec<ComplexSample> = Vec::new();
    let mut i: usize = 0;
    while i < n
        invariant
            i <= n,
            n == spectrum.len(),
            1 <= n <= MAX_BINS,
            1 <= f_s <= MAX_FREQ,
            -MAX_FREQ <= f_d <= MAX_FREQ,
            shift_scaled as int == (f_d as int) * (n as int),
            -0x4000_0000_0000_0000_0000 <= shift_scaled <= 0x4000_0000_0000_0000_0000,
            out.len() == i,
            forall|j: int|
                0 <= j < i ==> out[j].re == spec_explicit_out_re(
                    spectrum@,
                    f_d as int,
                    f_s as int,
                    n as int,
                    j,
                ) && out[j].im == spec_explicit_out_im(
                    spectrum@,
                    f_d as int,
                    f_s as int,
                    n as int,
                    j,
                ),
        decreases n - i,
    {
        let off: i64 = bin_offset(i, n);
        proof {
            assert(-0x4000_0000_0000_0000_0000 <= (off as int) * (f_s as int)
                <= 0x4000_0000_0000_0000_0000) by (nonlinear_arith)
                requires
                    -0x4000_0000 <= off <= 0x4000_0000,
                    1 <= f_s <= 0x4000_0000_0000;
        }
        let freq_scaled: i128 = (off as i128) * (f_s as i128);
        let idx_minus: usize = bin_of_scaled(freq_scaled - shift_scaled, f_s, n);
        let idx_plus: usize = bin_of_scaled(freq_scaled + shift_scaled, f_s, n);
        let re = half_sum(spectrum[idx_minus].re, spectrum[idx_plus].re);
        let im = half_sum(spectrum[idx_minus].im, spectrum[idx_plus].im);
        out.push(ComplexSample { re, im });
        i = i + 1;
    }
    out
}

/// Map a frequency given as the exact rational `num / n` millihertz to its
/// nearest bin.
fn bin_of_scaled(num: i128, f_s: i64, n: usize) -> (bin: usize)
    requires
        1 <= n <= MAX_BINS,
        1 <= f_s <= MAX_FREQ,
        -0x1_0000_0000_0000_0000_0000 <= num <= 0x1_0000_0000_0000_0000_0000,
    ensures
        bin == spec_bin_of_scaled(num as int, f_s as int, n as int),
        bin < n,
{
    proof {
        assert(0 <= (f_s as int) * (n as int) <= 0x4000_0000_0000_0000_0000)
            by (nonlinear_arith)
            requires
                1 <= f_s <= 0x4000_0000_0000,
                1 <= n <= 0x4000_0000;
    }
    let adjusted: i128 = if num >= 0 {
        num
    } else {
        num + (f_s as i128) * (n as i128)
    };
    proof {
        lemma_round_div_bound(adjusted as int, f_s as int);
    }
    let rounded: i128 = round_div_i128(adjusted, f_s as i128);
    wrap_index(rounded, n)
}

/// When the rounding of the carrier shift is not a tie (the exact shift in
/// bins, `f_d * n / f_s`, does not fall exactly halfway between two
/// integers), the two strategies pick the same pair of source bins, only in
/// swapped roles.
pub proof fn lemma_sources_agree(i: int, f_d: int, f_s: int, n: int)
    requires
        1 <= n,
        1 <= f_s,
        2 * ((f_d * n) % f_s) != f_s,
        0 <= i < n,
    ensures
        spec_explicit_minus(i, f_d, f_s, n) == spec_wrap(i - spec_shift_bins(f_d, f_s, n), n),
        spec_explicit_plus(i, f_d, f_s, n) == spec_wrap(i + spec_shift_bins(f_d, f_s, n), n),
{
    let z = f_d * n;
    let q = z / f_s;
    let r = z % f_s;
    lemma_fundamental_div_mod(z, f_s);
    lemma_mod_division_less_than_divisor(z, f_s);
    // The nearest whole-bin shift, and the (strictly sub-half) error the
    // rounding leaves behind.
    let s = if 2 * r < f_s {
        q
    } else {
        q + 1
    };
    assert((q + 1) * f_s == q * f_s + f_s && f_s * q == q * f_s) by (nonlinear_arith);
    assert(2 * (z - s * f_s) < f_s && 2 * (s * f_s - z) < f_s);
    lemma_round_div_unique(z, f_s, s);
    assert(spec_shift_bins(f_d, f_s, n) == s);
    let off = spec_bin_offset(i, n);
    assert(off * f_s - z == (off - s) * f_s + (s * f_s - z) && off * f_s + z == (off + s) * f_s + (
    z - s * f_s)) by (nonlinear_arith);
    lemma_scaled_bin_near(off * f_s - z, off - s, s * f_s - z, f_s, n);
    lemma_scaled_bin_near(off * f_s + z, off + s, z - s * f_s, f_s, n);
    if i > n / 2 {
        // The upper half aliases: off == i - n, one whole turn below i.
        vstd::arithmetic::div_mod::lemma_mod_multiples_vanish(-1, i - s, n);
        assert(n * -1 + (i - s) == off - s);
        vstd::arithmetic::div_mod::lemma_mod_multiples_vanish(-1, i + s, n);
        assert(n * -1 + (i + s) == off + s);
    }
}

/// A scaled frequency that sits strictly within half a bin of the whole
/// bin `c` maps to `c`'s wrapped class.
proof fn lemma_scaled_bin_near(num: int, c: int, e: int, f_s: int, n: int)
    requires
        1 <= n,
        1 <= f_s,
        num == c * f_s + e,
        2 * e < f_s,
        2 * (-e) < f_s,
    ensures
        spec_bin_of_scaled(num, f_s, n) == spec_wrap(c, n),
{
    if num >= 0 {
        lemma_round_div_unique(num, f_s, c);
    } else {
        assert((c + n) * f_s == c * f_s + n * f_s && f_s * n == n * f_s) by (nonlinear_arith);
        lemma_round_div_unique(num + f_s * n, f_s, c + n);
        vstd::arithmetic::div_mod::lemma_mod_multiples_vanish(1, c, n);
        assert(n * 1 + c == c + n);
    }
}

/// Shifting by a zero carrier frequency leaves the spectrum unchanged:
/// the synthesis degenerates to `(X(f) + X(f)) / 2 == X(f)` exactly, under
/// both strategies.
pub proof fn lemma_zero_shift_identity(s: Seq<ComplexSample>, f_s: int, n: int, i: int)
    requires
        n == s.len(),
        1 <= n,
        1 <= f_s,
        0 <= i < n,
    ensures
        spec_shift_out_re(s, 0, f_s, n, i) == s[i].re,
        spec_shift_out_im(s, 0, f_s, n, i) == s[i].im,
        spec_explicit_out_re(s, 0, f_s, n, i) == s[i].re,
        spec_explicit_out_im(s, 0, f_s, n, i) == s[i].im,
{
    lemma_round_div_exact(0, f_s);
    assert(spec_shift_bins(0, f_s, n) == 0);
    lemma_small_mod(i as nat, n as nat);
    lemma_round_div_exact(s[i].re as int, 2);
    lemma_round_div_exact(s[i].im as int, 2);
    lemma_small_mod(0, f_s as nat);
    lemma_sources_agree(i, 0, f_s, n);
}

/// Cross-consistency of the two shift strategies: wherever the carrier
/// shift does not round at an exact tie, both produce the same spectrum,
/// bin by bin (the swapped source roles cancel because the two halves are
/// summed).
pub proof fn lemma_shift_strategies_agree(
    s: Seq<ComplexSample>,
    f_d: int,
    f_s: int,
    n: int,
    i: int,
)
    requires
        n == s.len(),
        1 <= n,
        1 <= f_s,
        2 * ((f_d * n) % f_s) != f_s,
        0 <= i < n,
    ensures
        spec_explicit_out_re(s, f_d, f_s, n, i) == spec_shift_out_re(s, f_d, f_s, n, i),
        spec_explicit_out_im(s, f_d, f_s, n, i) == spec_shift_out_im(s, f_d, f_s, n, i),
{
    lemma_sources_agree(i, f_d, f_s, n);
}

} // verus!
