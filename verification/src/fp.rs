//! Fixed-point scalar arithmetic.
//!
//! Every physical quantity in the simulation is an `i64` holding a value
//! scaled by `SCALE`: the integer `v` stands for the real number `v / SCALE`.
//! All operations saturate at the magnitude cap `LIM`, so stored quantities
//! always lie in `[-LIM, LIM]` and intermediate products fit in `i128`.

use vstd::prelude::*;

verus! {

/// One real unit, in fixed-point ticks: the integer `v` stands for `v / SCALE`.
pub const SCALE: i64 = 1000;

/// Magnitude cap for every stored quantity; saturating operations clamp here.
pub const LIM: i64 = 1_000_000_000_000;

/// Absolute value.
pub open spec fn abs(x: int) -> int {
    if x >= 0 {
        x
    } else {
        -x
    }
}

/// Saturation to `[-LIM, LIM]`.
pub open spec fn sat(x: int) -> int {
    if x > LIM as int {
        LIM as int
    } else if x < -(LIM as int) {
        -(LIM as int)
    } else {
        x
    }
}

/// Truncated (round-toward-zero) division, the rounding the machine's signed
/// division uses; meaningful for positive divisors.
pub open spec fn tdiv(a: int, b: int) -> int
    recommends
        b > 0,
{
    if a >= 0 {
        a / b
    } else {
        -((-a) / b)
    }
}

/// Whether a value lies within the magnitude cap.
pub open spec fn in_lim(x: int) -> bool {
    -(LIM as int) <= x <= LIM as int
}

/// Magnitude cap for an accumulated force: one pairwise impulse per other
/// particle, each within `LIM`, for at most `MAX_PARTICLES` particles.
pub const FLIM: i64 = 1_000_000_000_000_000_000;

/// The largest particle count a simulation may hold; keeps accumulated
/// forces within `FLIM`.
pub const MAX_PARTICLES: usize = 1_000_000;

/// Whether a value lies within the accumulated-force cap.
pub open spec fn in_flim(x: int) -> bool {
    -(FLIM as int) <= x <= FLIM as int
}

/// Truncated division flips sign with its dividend.
pub proof fn lemma_tdiv_neg(a: int, b: int)
    requires
        b > 0,
    ensures
        tdiv(-a, b) == -tdiv(a, b),
{
}

/// Saturation flips sign with its argument.
pub proof fn lemma_sat_neg(x: int)
    ensures
        sat(-x) == -sat(x),
{
}

/// The quotient of a truncated division is no larger in magnitude than the
/// dividend divided by the (positive) divisor.
pub proof fn lemma_tdiv_mag(a: int, b: int)
    requires
        b > 0,
    ensures
        abs(tdiv(a, b)) == abs(a) / b,
        b * abs(tdiv(a, b)) <= abs(a),
{
    let m = abs(a);
    vstd::arithmetic::div_mod::lemma_div_pos_is_pos(m, b);
    vstd::arithmetic::div_mod::lemma_fundamental_div_mod(m, b);
    vstd::arithmetic::div_mod::lemma_mod_bound(m, b);
}

/// A truncated quotient of a bounded dividend is bounded: if `abs(a) <= k * b`
/// then `abs(tdiv(a, b)) <= k`.
pub proof fn lemma_tdiv_bounded(a: int, b: int, k: int)
    requires
        b > 0,
        0 <= k,
        abs(a) <= k * b,
    ensures
        abs(tdiv(a, b)) <= k,
{
    lemma_tdiv_mag(a, b);
    assert(abs(a) / b <= k) by {
        vstd::arithmetic::mul::lemma_mul_is_commutative(k, b);
        vstd::arithmetic::div_mod::lemma_div_multiples_vanish(k, b);
        vstd::arithmetic::div_mod::lemma_div_is_ordered(abs(a), k * b, b);
    }
}

/// `sat(a + b)`.
pub fn sat_add(a: i64, b: i64) -> (r: i64)
    ensures
        r as int == sat(a + b),
{
    let s: i128 = a as i128 + b as i128;
    if s > LIM as i128 {
        LIM
    } else if s < -(LIM as i128) {
        -LIM
    } else {
        s as i64
    }
}

/// `sat(tdiv(p, c))` for a wide intermediate value.
fn sat_div_wide(p: i128, c: i64) -> (r: i64)
    requires
        c > 0,
        -0x4000_0000_0000_0000_0000_0000_0000_0000 <= p as int
            <= 0x4000_0000_0000_0000_0000_0000_0000_0000,
    ensures
        r as int == sat(tdiv(p as int, c as int)),
{
    if p >= 0 {
        let q: u128 = (p as u128) / (c as u128);
        if q > LIM as u128 {
            LIM
        } else {
            q as i64
        }
    } else {
        let n: i128 = -p;
        let q: u128 = (n as u128) / (c as u128);
        if q > LIM as u128 {
            -LIM
        } else {
            -(q as i64)
        }
    }
}

/// `sat(tdiv(a * b, c))`: a fixed-point multiply-then-rescale, rounding
/// toward zero and saturating at the magnitude cap.
pub fn muldiv(a: i64, b: i64, c: i64) -> (r: i64)
    requires
        c > 0,
    ensures
        r as int == sat(tdiv(a * b, c as int)),
{
    proof {
        assert(-0x4000_0000_0000_0000_0000_0000_0000_0000 <= (a as int) * (b as int)
            <= 0x4000_0000_0000_0000_0000_0000_0000_0000) by (nonlinear_arith)
            requires
                -0x8000_0000_0000_0000 <= a as int <= 0x7fff_ffff_ffff_ffff,
                -0x8000_0000_0000_0000 <= b as int <= 0x7fff_ffff_ffff_ffff,
        ;
    }
    let p: i128 = (a as i128) * (b as i128);
    sat_div_wide(p, c)
}

/// The integer square root: the greatest `r` with `r * r <= n`.
pub open spec fn sqrt_floor(n: nat) -> nat
    decreases n,
{
    if n == 0 {
        0
    } else {
        let r = sqrt_floor((n - 1) as nat);
        if (r + 1) * (r + 1) <= n {
            r + 1
        } else {
            r
        }
    }
}

/// `sqrt_floor(n)` squares to at most `n`, and is the greatest such value.
pub proof fn lemma_sqrt_floor(n: nat)
    ensures
        sqrt_floor(n) * sqrt_floor(n) <= n,
        n < (sqrt_floor(n) + 1) * (sqrt_floor(n) + 1),
    decreases n,
{
    if n > 0 {
        lemma_sqrt_floor((n - 1) as nat);
        let r = sqrt_floor((n - 1) as nat);
        if (r + 1) * (r + 1) <= n {
            assert(sqrt_floor(n) == r + 1);
            assert(n < (r + 2) * (r + 2)) by (nonlinear_arith)
                requires
                    n <= (r + 1) * (r + 1),
                    0 <= r,
            ;
            assert((sqrt_floor(n) + 1) * (sqrt_floor(n) + 1) == (r + 2) * (r + 2))
                by (nonlinear_arith)
                requires
                    sqrt_floor(n) == r + 1,
            ;
        } else {
            assert(sqrt_floor(n) == r);
        }
    } else {
        assert(sqrt_floor(0nat) == 0);
        assert((0 + 1) * (0 + 1) == 1) by (nonlinear_arith);
    }
}

/// Only one value can sit between the two square bounds, so the bounds pin
/// down `sqrt_floor`.
pub proof fn lemma_sqrt_floor_unique(n: nat, r: nat)
    requires
        r * r <= n,
        n < (r + 1) * (r + 1),
    ensures
        r == sqrt_floor(n),
{
    lemma_sqrt_floor(n);
    let s = sqrt_floor(n);
    assert(r == s) by (nonlinear_arith)
        requires
            r * r <= n < (r + 1) * (r + 1),
            s * s <= n < (s + 1) * (s + 1),
            0 <= r,
            0 <= s,
    ;
}

/// The integer square root, by bisection.
pub fn isqrt(n: u128) -> (r: u128)
    requires
        n < 0x4000_0000_0000_0000_0000_0000_0000_0000,
    ensures
        r as nat == sqrt_floor(n as nat),
        r * r <= n,
        n < (r + 1) * (r + 1),
{
    proof {
        assert(0x8000_0000_0000_0000u128 * 0x8000_0000_0000_0000u128
            == 0x4000_0000_0000_0000_0000_0000_0000_0000) by (nonlinear_arith);
    }
    let mut lo: u128 = 0;
    let mut hi: u128 = 0x8000_0000_0000_0000;
    while lo + 1 < hi
        invariant
            lo < hi <= 0x8000_0000_0000_0000u128,
            lo * lo <= n,
            n < hi * hi,
        decreases hi - lo,
    {
        let mid: u128 = lo + (hi - lo) / 2;
        proof {
            assert(lo < mid < hi);
            assert(mid * mid < 0x8000_0000_0000_0000_0000_0000_0000_0000) by (nonlinear_arith)
                requires
                    0 <= mid < 0x8000_0000_0000_0000u128 + 1,
            ;
        }
        if mid * mid <= n {
            lo = mid;
        } else {
            hi = mid;
        }
    }
    proof {
        lemma_sqrt_floor_unique(n as nat, lo as nat);
    }
    lo
}

/// The integer square root rounded up: the least `r` with `n <= r * r`.
pub open spec fn sqrt_ceil(n: nat) -> nat {
    if sqrt_floor(n) * sqrt_floor(n) == n {
        sqrt_floor(n)
    } else {
        sqrt_floor(n) + 1
    }
}

/// `sqrt_ceil(n)` squares to at least `n`.
pub proof fn lemma_sqrt_ceil(n: nat)
    ensures
        n <= sqrt_ceil(n) * sqrt_ceil(n),
        n > 0 ==> sqrt_ceil(n) > 0,
{
    lemma_sqrt_floor(n);
}

/// The integer square root rounded up, by bisection.
pub fn isqrt_up(n: u128) -> (r: u128)
    requires
        n < 0x4000_0000_0000_0000_0000_0000_0000_0000,
    ensures
        r as nat == sqrt_ceil(n as nat),
        n <= r * r,
{
    let f: u128 = isqrt(n);
    proof {
        lemma_sqrt_ceil(n as nat);
        assert(f < 0x8000_0000_0000_0000u128) by (nonlinear_arith)
            requires
                f * f <= n,
                n < 0x4000_0000_0000_0000_0000_0000_0000_0000,
        ;
    }
    if f * f == n {
        f
    } else {
        f + 1
    }
}

} // verus!
