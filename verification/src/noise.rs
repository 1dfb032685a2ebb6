//! Coherent noise over fixed-point coordinates, and the direction vectors
//! derived from it.
//!
//! The noise is a seeded integer value-noise: a hash gives each lattice point
//! (one point per `SCALE` of coordinate) a value in `[-SCALE, SCALE]`, and a
//! sample bilinearly interpolates the four surrounding lattice values, so
//! nearby inputs give nearby outputs. Sampling is a pure function of the seed
//! and the coordinates: repeated calls on the same input return the same
//! value.

use vstd::prelude::*;
use crate::fp::{in_lim, sat, tdiv, muldiv, sat_add, LIM, SCALE};
use crate::vec2::Vec2;

verus! {

/// Half a turn, in the fixed-point turn unit (`SCALE` is one full turn).
pub const HALF_TURN: i64 = 500;

/// A quarter turn.
pub const QUARTER_TURN: i64 = 250;

/// The lattice value at an (offset) lattice point: an integer mix of the
/// seed and the coordinates, reduced to `[-SCALE, SCALE]`.
pub open spec fn lattice_hash(seed: u32, ix: int, iy: int) -> int
    recommends
        0 <= ix,
        0 <= iy,
{
    let m = ix * 0x9e37_79b9 + iy * 0x85eb_ca6b + (seed as int) * 0xc2b2_ae35;
    let m1 = m % 0x1_0000_0000;
    let m2 = (m1 * 0x9e37_79b9) % 0x1_0000_0000;
    (m2 % 2001) - 1000
}

/// The lattice value, computed in machine integers.
fn lattice_hash_exec(seed: u32, ix: u64, iy: u64) -> (r: i64)
    requires
        ix <= 0x1_0000_0000,
        iy <= 0x1_0000_0000,
    ensures
        r as int == lattice_hash(seed, ix as int, iy as int),
        -1000 <= r <= 1000,
{
    let m: u128 = (ix as u128) * 0x9e37_79b9 + (iy as u128) * 0x85eb_ca6b + (seed as u128)
        * 0xc2b2_ae35;
    let m1: u128 = m % 0x1_0000_0000;
    let m2: u128 = (m1 * 0x9e37_79b9) % 0x1_0000_0000;
    let n0: u128 = m2 % 2001;
    (n0 as i64) - 1000
}

/// A noise sample at fixed-point coordinates: bilinear interpolation of the
/// four surrounding lattice values, clamped to `[-SCALE, SCALE]`.
pub open spec fn noise_at(seed: u32, xs: int, ys: int) -> int
    recommends
        in_lim(xs),
        in_lim(ys),
{
    let ux = xs + LIM;
    let uy = ys + LIM;
    let ix = ux / (SCALE as int);
    let iy = uy / (SCALE as int);
    let fx = ux % (SCALE as int);
    let fy = uy % (SCALE as int);
    let h00 = lattice_hash(seed, ix, iy);
    let h10 = lattice_hash(seed, ix + 1, iy);
    let h01 = lattice_hash(seed, ix, iy + 1);
    let h11 = lattice_hash(seed, ix + 1, iy + 1);
    let nx0 = sat(h00 + sat(tdiv((h10 - h00) * fx, SCALE as int)));
    let nx1 = sat(h01 + sat(tdiv((h11 - h01) * fx, SCALE as int)));
    let n = sat(nx0 + sat(tdiv((nx1 - nx0) * fy, SCALE as int)));
    clamp_unit(n)
}

/// Clamp to one fixed-point unit, `[-SCALE, SCALE]`.
pub open spec fn clamp_unit(n: int) -> int {
    if n > SCALE as int {
        SCALE as int
    } else if n < -(SCALE as int) {
        -(SCALE as int)
    } else {
        n
    }
}

/// Sample the noise field. The result is a pure function of the seed and the
/// coordinates alone.
pub fn sample(seed: u32, xs: i64, ys: i64) -> (r: i64)
    requires
        in_lim(xs as int),
        in_lim(ys as int),
    ensures
        r as int == noise_at(seed, xs as int, ys as int),
        -SCALE <= r <= SCALE,
{
    let ux: u64 = (xs + LIM) as u64;
    let uy: u64 = (ys + LIM) as u64;
    let cell: u64 = 1000;
    let ix: u64 = ux / cell;
    let iy: u64 = uy / cell;
    let fx: i64 = (ux % cell) as i64;
    let fy: i64 = (uy % cell) as i64;
    let h00: i64 = lattice_hash_exec(seed, ix, iy);
    let h10: i64 = lattice_hash_exec(seed, ix + 1, iy);
    let h01: i64 = lattice_hash_exec(seed, ix, iy + 1);
    let h11: i64 = lattice_hash_exec(seed, ix + 1, iy + 1);
    let nx0: i64 = sat_add(h00, muldiv(h10 - h00, fx, SCALE));
    let nx1: i64 = sat_add(h01, muldiv(h11 - h01, fx, SCALE));
    let n: i64 = sat_add(nx0, muldiv(nx1 - nx0, fy, SCALE));
    if n > SCALE {
        SCALE
    } else if n < -SCALE {
        -SCALE
    } else {
        n
    }
}

/// Wrap a turn value from `[-SCALE, 2 * SCALE)` into `[0, SCALE)`.
pub open spec fn wrap_turn(a: int) -> int
    recommends
        -(SCALE as int) <= a < 2 * SCALE as int,
{
    if a < 0 {
        a + SCALE as int
    } else if a >= SCALE as int {
        a - SCALE as int
    } else {
        a
    }
}

/// A fixed-point sine over turns: one full period per `SCALE`, approximated
/// by one parabola per half-turn, scaled to peak at `SCALE`.
pub open spec fn sin_turns(a: int) -> int
    recommends
        -(SCALE as int) <= a < 2 * SCALE as int,
{
    let phi = wrap_turn(a);
    if phi < HALF_TURN as int {
        tdiv(4 * phi * (HALF_TURN as int - phi) * SCALE as int, 250_000)
    } else {
        let u = phi - HALF_TURN as int;
        -tdiv(4 * u * (HALF_TURN as int - u) * SCALE as int, 250_000)
    }
}

/// A fixed-point cosine over turns: the sine a quarter turn ahead.
pub open spec fn cos_turns(a: int) -> int
    recommends
        -(SCALE as int) <= a < SCALE as int,
{
    sin_turns(a + QUARTER_TURN as int)
}

/// The positive half-wave parabola, in machine integers.
fn half_wave(u: i64) -> (r: i64)
    requires
        0 <= u < HALF_TURN,
    ensures
        r as int == tdiv(4 * u * (HALF_TURN as int - u) * SCALE as int, 250_000),
        0 <= r <= SCALE,
{
    let uu: u64 = u as u64;
    proof {
        assert(4 * uu * (500 - uu) * 1000 <= 250_000_000) by (nonlinear_arith)
            requires
                0 <= uu < 500,
        ;
    }
    let num: u64 = 4 * uu * (500 - uu) * 1000;
    let q: u64 = num / 250_000;
    q as i64
}

/// The fixed-point sine, in machine integers.
pub fn sin_turns_exec(a: i64) -> (r: i64)
    requires
        -SCALE <= a < 2 * SCALE,
    ensures
        r as int == sin_turns(a as int),
        -SCALE <= r <= SCALE,
{
    let phi: i64 = if a < 0 {
        a + SCALE
    } else if a >= SCALE {
        a - SCALE
    } else {
        a
    };
    if phi < HALF_TURN {
        half_wave(phi)
    } else {
        let v = half_wave(phi - HALF_TURN);
        -v
    }
}

/// The unit direction at a turn value `a` in `[-SCALE, SCALE]`: a fixed-point
/// approximation of `(cos, sin)` of the angle `a` turns.
pub open spec fn dir_of_turns(a: int) -> (int, int)
    recommends
        -(SCALE as int) <= a <= SCALE as int,
{
    (sin_turns(a + QUARTER_TURN as int), sin_turns(a))
}

/// The unit direction, in machine integers.
pub fn dir_of_turns_exec(a: i64) -> (d: Vec2)
    requires
        -SCALE <= a <= SCALE,
    ensures
        (d.x as int, d.y as int) == dir_of_turns(a as int),
        d.wf(),
        -SCALE <= d.x <= SCALE,
        -SCALE <= d.y <= SCALE,
{
    let c: i64 = sin_turns_exec(a + QUARTER_TURN);
    let s: i64 = sin_turns_exec(a);
    Vec2 { x: c, y: s }
}

} // verus!
