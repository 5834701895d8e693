//! Spectral bin geometry: the signed-frequency convention of an `n`-point
//! complex spectrum and circular (Euclidean) index arithmetic.

use vstd::prelude::*;
use vstd::arithmetic::div_mod::{
    lemma_fundamental_div_mod, lemma_fundamental_div_mod_converse_mod,
    lemma_mod_division_less_than_divisor,
};

verus! {

/// Largest spectrum length the bin arithmetic accepts.
pub const MAX_BINS: usize = 0x4000_0000;

/// Largest frequency magnitude (millihertz) the spectral operations accept.
pub const MAX_FREQ: i64 = 0x4000_0000_0000;

/// Signed bin offset: bin `i` of an `n`-point spectrum stands for the
/// frequency `offset * f_s / n`; bins past `n / 2` wrap around to negative
/// frequencies.
pub open spec fn spec_bin_offset(i: int, n: int) -> int {
    if i <= n / 2 {
        i
    } else {
        i - n
    }
}

/// Euclidean remainder of a signed index, back into `[0, n)`.
pub open spec fn spec_wrap(k: int, n: int) -> int
    recommends
        n > 0,
{
    k % n
}

/// Signed bin offset of bin `i` in an `n`-point spectrum.
pub fn bin_offset(i: usize, n: usize) -> (off: i64)
    requires
        i < n,
        n <= MAX_BINS,
    ensures
        off == spec_bin_offset(i as int, n as int),
{
    if i <= n / 2 {
        i as i64
    } else {
        (i as i64) - (n as i64)
    }
}

/// Wrap an arbitrary signed index circularly into `[0, n)`.
pub fn wrap_index(k: i128, n: usize) -> (r: usize)
    requires
        1 <= n <= MAX_BINS,
        k != i128::MIN,
    ensures
        r == spec_wrap(k as int, n as int),
        r < n,
{
    let nu: u128 = n as u128;
    proof {
        lemma_mod_division_less_than_divisor(k as int, n as int);
    }
    if k >= 0 {
        ((k as u128) % nu) as usize
    } else {
        let m: u128 = ((-k) as u128) % nu;
        proof {
            let ki = k as int;
            let ni = n as int;
            let q0 = (-ki) / ni;
            lemma_fundamental_div_mod(-ki, ni);
            lemma_mod_division_less_than_divisor(-ki, ni);
            assert(-ki == ni * q0 + m);
            if m == 0 {
                assert(ki == ni * (-q0) + 0) by (nonlinear_arith)
                    requires
                        -ki == ni * q0 + m,
                        m == 0;
                lemma_fundamental_div_mod_converse_mod(ki, ni, -q0, 0);
            } else {
                assert(ki == ni * (-q0 - 1) + (ni - m)) by (nonlinear_arith)
                    requires
                        -ki == ni * q0 + m;
                lemma_fundamental_div_mod_converse_mod(ki, ni, -q0 - 1, ni - m);
            }
        }
        if m == 0 {
            0
        } else {
            n - (m as usize)
        }
    }
}

/// Shifting an index by `s` and back by `-s` returns to the same bin class:
/// the circular shift of a spectrum is invertible.
pub proof fn lemma_wrap_shift_round_trip(i: int, s: int, n: int)
    requires
        n > 0,
        0 <= i < n,
    ensures
        spec_wrap(spec_wrap(i + s, n) - s, n) == i,
{
    let w = (i + s) % n;
    lemma_fundamental_div_mod(i + s, n);
    let q = (i + s) / n;
    assert(w - s == n * (-q) + i) by (nonlinear_arith)
        requires
            i + s == n * q + w;
    vstd::arithmetic::div_mod::lemma_mod_multiples_vanish(-q, i, n);
    vstd::arithmetic::div_mod::lemma_small_mod(i as nat, n as nat);
}

} // verus!
