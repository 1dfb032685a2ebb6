//! Two-component fixed-point vectors.

use vstd::prelude::*;
use crate::fp::{abs, in_lim, sat, tdiv, sqrt_ceil, lemma_sqrt_ceil, lemma_sqrt_floor,
    lemma_tdiv_mag, lemma_tdiv_bounded, muldiv, sat_add, isqrt_up, LIM};

verus! {

/// A two-component vector of fixed-point values.
#[derive(Clone, Copy, PartialEq, Eq, Debug)]
pub struct Vec2 {
    pub x: i64,
    pub y: i64,
}

impl Vec2 {
    /// Both components lie within the magnitude cap.
    pub open spec fn wf(self) -> bool {
        in_lim(self.x as int) && in_lim(self.y as int)
    }

    /// The squared Euclidean length.
    pub open spec fn mag_sq(self) -> int {
        self.x * self.x + self.y * self.y
    }

    pub open spec fn is_zero(self) -> bool {
        self.x == 0 && self.y == 0
    }

    pub fn new(x: i64, y: i64) -> (v: Vec2)
        ensures
            v.x == x,
            v.y == y,
    {
        Vec2 { x, y }
    }

    pub fn zero() -> (v: Vec2)
        ensures
            v.is_zero(),
    {
        Vec2 { x: 0, y: 0 }
    }
}

/// Saturating component-wise sum.
pub open spec fn v_add_spec(a: Vec2, b: Vec2) -> Vec2 {
    Vec2 { x: sat(a.x + b.x) as i64, y: sat(a.y + b.y) as i64 }
}

/// Component-wise rescale: each component becomes `sat(tdiv(c * num, den))`.
pub open spec fn v_scale_spec(a: Vec2, num: int, den: int) -> Vec2 {
    Vec2 { x: sat(tdiv(a.x * num, den)) as i64, y: sat(tdiv(a.y * num, den)) as i64 }
}

/// Saturating vector addition.
pub fn v_add(a: Vec2, b: Vec2) -> (r: Vec2)
    ensures
        r == v_add_spec(a, b),
        r.wf(),
{
    Vec2 { x: sat_add(a.x, b.x), y: sat_add(a.y, b.y) }
}

/// Vector rescale by a fixed-point ratio, rounding toward zero and saturating.
pub fn v_scale(a: Vec2, num: i64, den: i64) -> (r: Vec2)
    requires
        den > 0,
    ensures
        r == v_scale_spec(a, num as int, den as int),
        r.wf(),
{
    Vec2 { x: muldiv(a.x, num, den), y: muldiv(a.y, num, den) }
}

/// Length clamping: a vector whose squared length is at most `t * t` is kept;
/// a longer one is rescaled by `t` over the rounded-up integer length, which
/// brings its length to at most `t`.
pub open spec fn clamp_len_spec(xi: int, yi: int, t: int) -> (int, int) {
    let m2 = xi * xi + yi * yi;
    if m2 <= t * t {
        (xi, yi)
    } else {
        let m = sqrt_ceil(m2 as nat) as int;
        (tdiv(xi * t, m), tdiv(yi * t, m))
    }
}

/// The clamped vector never exceeds the limit: each component is at most `t`
/// in magnitude and the squared length is at most `t * t`.
pub proof fn lemma_clamp_len_bounds(xi: int, yi: int, t: int)
    requires
        in_lim(xi),
        in_lim(yi),
        0 <= t,
    ensures
        ({
            let (rx, ry) = clamp_len_spec(xi, yi, t);
            abs(rx) <= t && abs(ry) <= t && rx * rx + ry * ry <= t * t
        }),
{
    let m2 = xi * xi + yi * yi;
    if m2 <= t * t {
        assert(abs(xi) <= t && abs(yi) <= t) by (nonlinear_arith)
            requires
                xi * xi + yi * yi <= t * t,
                0 <= t,
        ;
    } else {
        assert(m2 > 0) by (nonlinear_arith)
            requires
                m2 == xi * xi + yi * yi,
                m2 > t * t,
                0 <= t,
        ;
        let m = sqrt_ceil(m2 as nat) as int;
        lemma_sqrt_ceil(m2 as nat);
        assert(m >= 1);
        assert(m2 <= m * m);
        let rx = tdiv(xi * t, m);
        let ry = tdiv(yi * t, m);
        // component bound: |xi * t| <= t * m because |xi| <= m
        assert(abs(xi) * abs(xi) <= m2 && abs(yi) * abs(yi) <= m2) by (nonlinear_arith)
            requires
                m2 == xi * xi + yi * yi,
        ;
        assert(abs(xi) <= m && abs(yi) <= m) by (nonlinear_arith)
            requires
                abs(xi) * abs(xi) <= m * m,
                abs(yi) * abs(yi) <= m * m,
                0 <= abs(xi),
                0 <= abs(yi),
                0 <= m,
        ;
        assert(abs(xi * t) <= t * m && abs(yi * t) <= t * m) by (nonlinear_arith)
            requires
                abs(xi) <= m,
                abs(yi) <= m,
                0 <= t,
        ;
        lemma_tdiv_bounded(xi * t, m, t);
        lemma_tdiv_bounded(yi * t, m, t);
        // squared-length bound: (m |rx|)^2 <= (xi t)^2, summed and cancelled by m^2
        lemma_tdiv_mag(xi * t, m);
        lemma_tdiv_mag(yi * t, m);
        assert(rx * rx * (m * m) <= (xi * t) * (xi * t)) by (nonlinear_arith)
            requires
                m * abs(rx) <= abs(xi * t),
                0 <= m,
        ;
        assert(ry * ry * (m * m) <= (yi * t) * (yi * t)) by (nonlinear_arith)
            requires
                m * abs(ry) <= abs(yi * t),
                0 <= m,
        ;
        assert((xi * t) * (xi * t) + (yi * t) * (yi * t) == m2 * (t * t)) by (nonlinear_arith)
            requires
                m2 == xi * xi + yi * yi,
        ;
        assert(rx * rx + ry * ry <= t * t) by (nonlinear_arith)
            requires
                rx * rx * (m * m) + ry * ry * (m * m) <= m2 * (t * t),
                m2 <= m * m,
                m >= 1,
                0 <= t,
        ;
    }
}

/// Clamp a vector's length to at most `t`, preserving its direction up to
/// fixed-point rounding.
pub fn clamp_len(v: Vec2, t: i64) -> (r: Vec2)
    requires
        v.wf(),
        0 <= t <= LIM,
    ensures
        (r.x as int, r.y as int) == clamp_len_spec(v.x as int, v.y as int, t as int),
        r.wf(),
{
    proof {
        lemma_clamp_len_bounds(v.x as int, v.y as int, t as int);
        assert(0 <= (v.x as int) * (v.x as int) <= (LIM as int) * (LIM as int)
            && 0 <= (v.y as int) * (v.y as int) <= (LIM as int) * (LIM as int)
            && 0 <= (t as int) * (t as int) <= (LIM as int) * (LIM as int)) by (nonlinear_arith)
            requires
                in_lim(v.x as int),
                in_lim(v.y as int),
                0 <= t <= LIM,
        ;
    }
    let x2: i128 = (v.x as i128) * (v.x as i128);
    let y2: i128 = (v.y as i128) * (v.y as i128);
    let m2: i128 = x2 + y2;
    let t2: i128 = (t as i128) * (t as i128);
    if m2 <= t2 {
        v
    } else {
        let m: u128 = isqrt_up(m2 as u128);
        proof {
            lemma_sqrt_ceil(m2 as nat);
            lemma_sqrt_floor(m2 as nat);
            let s = crate::fp::sqrt_floor(m2 as nat);
            assert(s <= 2 * LIM) by (nonlinear_arith)
                requires
                    s * s <= m2,
                    m2 <= 2 * (LIM as int) * (LIM as int),
                    0 <= s,
                    LIM == 1_000_000_000_000i64,
            ;
        }
        let mi: i64 = m as i64;
        let rx: i64 = muldiv(v.x, t, mi);
        let ry: i64 = muldiv(v.y, t, mi);
        Vec2 { x: rx, y: ry }
    }
}

} // verus!
