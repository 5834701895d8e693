//! Q32.32 fixed-point scalars: rounding division, saturation, and the
//! fixed-point product used by every signal-processing stage.

use vstd::prelude::*;
use vstd::arithmetic::div_mod::lemma_div_nonincreasing;

verus! {

/// Mantissa of the amplitude 1.0: samples carry 32 fractional bits.
pub const FRAC_ONE: i64 = 0x1_0000_0000;

/// Largest mantissa a sample can hold.
pub const SAT_MAX: i64 = 0x7fff_ffff_ffff_ffff;

/// Smallest mantissa a sample can hold.
pub const SAT_MIN: i64 = -0x8000_0000_0000_0000;

/// `a / b` rounded to the nearest integer, halves away from zero (`b > 0`).
pub open spec fn round_div(a: int, b: int) -> int
    recommends
        b > 0,
{
    if a >= 0 {
        (a + b / 2) / b
    } else {
        -((-a + b / 2) / b)
    }
}

/// `a / b` rounded to the nearest integer, halves away from zero, for any
/// nonzero `b`.
pub open spec fn round_div_signed(a: int, b: int) -> int
    recommends
        b != 0,
{
    if b > 0 {
        round_div(a, b)
    } else {
        round_div(-a, -b)
    }
}

/// Clamp a wide intermediate back into the `i64` mantissa range.
pub open spec fn sat64(v: int) -> int {
    if v > SAT_MAX {
        SAT_MAX as int
    } else if v < SAT_MIN {
        SAT_MIN as int
    } else {
        v
    }
}

/// Product of two Q32.32 mantissas, rounded back to Q32.32.
pub open spec fn qmul(x: int, y: int) -> int {
    round_div(x * y, FRAC_ONE as int)
}

/// The rounded quotient differs from the true quotient by at most one, so
/// its magnitude never exceeds `|a| / b + 1`; in particular it stays within
/// the magnitude of `a` itself when `b >= 1`.
pub proof fn lemma_round_div_bound(a: int, b: int)
    requires
        b >= 1,
    ensures
        a >= 0 ==> 0 <= round_div(a, b) <= a + b / 2,
        a < 0 ==> 0 >= round_div(a, b) >= a - b / 2,
{
    if a >= 0 {
        lemma_div_nonincreasing(a + b / 2, b);
        vstd::arithmetic::div_mod::lemma_div_pos_is_pos(a + b / 2, b);
    } else {
        lemma_div_nonincreasing(-a + b / 2, b);
        vstd::arithmetic::div_mod::lemma_div_pos_is_pos(-a + b / 2, b);
    }
}

/// Dividing an exact multiple rounds to the exact quotient.
pub proof fn lemma_round_div_exact(c: int, b: int)
    requires
        b >= 1,
    ensures
        round_div(c * b, b) == c,
{
    let h = b / 2;
    assert(0 <= h < b);
    if c >= 0 {
        vstd::arithmetic::div_mod::lemma_hoist_over_denominator(h, c, b as nat);
        vstd::arithmetic::div_mod::lemma_basic_div(h, b);
        assert(c * b + h == h + c * b);
    } else {
        assert(-(c * b) == (-c) * b) by (nonlinear_arith);
        vstd::arithmetic::div_mod::lemma_hoist_over_denominator(h, -c, b as nat);
        vstd::arithmetic::div_mod::lemma_basic_div(h, b);
        assert((-c) * b + h == h + (-c) * b);
    }
}

/// The rounded quotient characterized: an integer strictly within half a
/// divisor of the true quotient (so ties are excluded) is the rounded
/// quotient.
pub proof fn lemma_round_div_unique(a: int, b: int, t: int)
    requires
        b >= 1,
        2 * (a - t * b) < b,
        2 * (t * b - a) < b,
    ensures
        round_div(a, b) == t,
{
    let h = b / 2;
    if a >= 0 {
        assert(t * b <= a + h && a + h < t * b + b);
        vstd::arithmetic::div_mod::lemma_fundamental_div_mod_converse_div(
            a + h,
            b,
            t,
            a + h - t * b,
        );
    } else {
        assert((-t) * b == -(t * b)) by (nonlinear_arith);
        assert((-t) * b <= -a + h && -a + h < (-t) * b + b);
        vstd::arithmetic::div_mod::lemma_fundamental_div_mod_converse_div(
            -a + h,
            b,
            -t,
            -a + h - (-t) * b,
        );
    }
}

/// Exec rounding division on wide intermediates, halves away from zero.
pub fn round_div_i128(a: i128, b: i128) -> (r: i128)
    requires
        1 <= b <= 0x4000_0000_0000_0000_0000_0000_0000_0000,
        -0x4000_0000_0000_0000_0000_0000_0000_0000 <= a
            <= 0x4000_0000_0000_0000_0000_0000_0000_0000,
    ensures
        r == round_div(a as int, b as int),
{
    let bu: u128 = b as u128;
    let half: u128 = bu / 2;
    if a >= 0 {
        let num: u128 = (a as u128) + half;
        let q: u128 = num / bu;
        proof {
            lemma_div_nonincreasing(num as int, bu as int);
            vstd::arithmetic::div_mod::lemma_div_pos_is_pos(num as int, bu as int);
        }
        q as i128
    } else {
        let num: u128 = ((-a) as u128) + half;
        let q: u128 = num / bu;
        proof {
            lemma_div_nonincreasing(num as int, bu as int);
            vstd::arithmetic::div_mod::lemma_div_pos_is_pos(num as int, bu as int);
        }
        -(q as i128)
    }
}

/// Exec saturation of a wide intermediate to an `i64` mantissa.
pub fn sat64_i128(v: i128) -> (r: i64)
    ensures
        r == sat64(v as int),
{
    if v > SAT_MAX as i128 {
        SAT_MAX
    } else if v < SAT_MIN as i128 {
        SAT_MIN
    } else {
        v as i64
    }
}

/// Exec fixed-point product of two mantissas, saturated to `i64`.
pub fn qmul_sat(x: i64, y: i64) -> (r: i64)
    ensures
        r == sat64(qmul(x as int, y as int)),
{
    let xi: i128 = x as i128;
    let yi: i128 = y as i128;
    proof {
        assert(-0x4000_0000_0000_0000_0000_0000_0000_0000 <= (x as int) * (y as int)
            <= 0x4000_0000_0000_0000_0000_0000_0000_0000) by (nonlinear_arith)
            requires
                -0x8000_0000_0000_0000 <= x <= 0x7fff_ffff_ffff_ffff,
                -0x8000_0000_0000_0000 <= y <= 0x7fff_ffff_ffff_ffff;
    }
    let p: i128 = xi * yi;
    let q: i128 = round_div_i128(p, FRAC_ONE as i128);
    sat64_i128(q)
}

} // verus!
