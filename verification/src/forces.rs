//! The pluggable force strategies and the per-particle step they induce.

use vstd::prelude::*;
use crate::fp::{in_lim, isqrt, lemma_sat_neg, lemma_sqrt_floor, lemma_tdiv_neg, muldiv, sat,
    sqrt_floor, tdiv, LIM, SCALE};
use crate::noise::{dir_of_turns, dir_of_turns_exec, noise_at, sample};
use crate::particle::{pos_step, vel_step, Particle};
use crate::vec2::{v_add, v_add_spec, v_scale, v_scale_spec, Vec2};

verus! {

/// The force rule a simulation runs under, fixed at construction.
#[derive(Clone, Copy, PartialEq, Eq, Debug)]
pub enum ForceStrategy {
    /// A constant directional force: each tick adds `force * dt` to the
    /// particle's acceleration.
    UniformField { force: Vec2 },
    /// A force turning with a coherent noise field sampled at the particle's
    /// position: each tick overwrites the acceleration with the field
    /// direction times `strength`. `scale` sets the spatial frequency of the
    /// field; `strength` the magnitude.
    NoiseField { seed: u32, scale: i64, strength: i64 },
    /// Newtonian attraction between every particle pair, with gravitational
    /// constant `g`, applied as a direct positional impulse.
    PairwiseGravity { g: i64 },
}

impl ForceStrategy {
    pub open spec fn wf(self) -> bool {
        match self {
            ForceStrategy::UniformField { force } => force.wf(),
            ForceStrategy::NoiseField { seed, scale, strength } => in_lim(scale as int) && 0
                <= strength <= LIM,
            ForceStrategy::PairwiseGravity { g } => 0 <= g <= LIM,
        }
    }

    /// Whether the strategy acts on each particle independently (through the
    /// acceleration), as opposed to the pairwise mode.
    pub open spec fn is_field(self) -> bool {
        !(self is PairwiseGravity)
    }

    pub fn uniform_field(force: Vec2) -> (s: ForceStrategy)
        requires
            force.wf(),
        ensures
            s == (ForceStrategy::UniformField { force }),
    {
        ForceStrategy::UniformField { force }
    }

    pub fn noise_field(seed: u32, scale: i64, strength: i64) -> (s: ForceStrategy)
        requires
            in_lim(scale as int),
            0 <= strength <= LIM,
        ensures
            s == (ForceStrategy::NoiseField { seed, scale, strength }),
    {
        ForceStrategy::NoiseField { seed, scale, strength }
    }

    pub fn pairwise_gravity(g: i64) -> (s: ForceStrategy)
        requires
            0 <= g <= LIM,
        ensures
            s == (ForceStrategy::PairwiseGravity { g }),
    {
        ForceStrategy::PairwiseGravity { g }
    }
}

/// What a field strategy does to one particle's acceleration.
///
/// A uniform field accumulates `force * dt`; a noise field overwrites the
/// acceleration with the field direction at the particle's position times the
/// field strength. The pairwise mode leaves the particle unchanged here.
pub open spec fn apply_force_spec(s: ForceStrategy, p: Particle, dt: int) -> Particle {
    match s {
        ForceStrategy::UniformField { force } => Particle {
            acceleration: v_add_spec(p.acceleration, v_scale_spec(force, dt, SCALE as int)),
            ..p
        },
        ForceStrategy::NoiseField { seed, scale, strength } => {
            let sx = sat(tdiv(p.pos.x * scale, SCALE as int));
            let sy = sat(tdiv(p.pos.y * scale, SCALE as int));
            let n = noise_at(seed, sx, sy);
            let (dx, dy) = dir_of_turns(n);
            Particle {
                acceleration: Vec2 {
                    x: sat(tdiv(dx * strength, SCALE as int)) as i64,
                    y: sat(tdiv(dy * strength, SCALE as int)) as i64,
                },
                ..p
            }
        },
        ForceStrategy::PairwiseGravity { .. } => p,
    }
}

/// Apply a field strategy to one particle.
pub fn apply_force(s: &ForceStrategy, p: &mut Particle, dt: i64)
    requires
        old(p).wf(),
        s.wf(),
        0 <= dt <= LIM,
    ensures
        *final(p) == apply_force_spec(*s, *old(p), dt as int),
        final(p).wf(),
{
    match s {
        ForceStrategy::UniformField { force } => {
            p.acceleration = v_add(p.acceleration, v_scale(*force, dt, SCALE));
        }
        ForceStrategy::NoiseField { seed, scale, strength } => {
            let sx: i64 = muldiv(p.pos.x, *scale, SCALE);
            let sy: i64 = muldiv(p.pos.y, *scale, SCALE);
            let n: i64 = sample(*seed, sx, sy);
            let d: Vec2 = dir_of_turns_exec(n);
            p.acceleration = Vec2 { x: muldiv(d.x, *strength, SCALE), y: muldiv(d.y, *strength, SCALE) };
        }
        ForceStrategy::PairwiseGravity { .. } => {}
    }
}

/// The noise-derived acceleration is deterministic: it is a pure function of
/// the seed, the field configuration and the particle's position, so two
/// applications at the same position — whatever the elapsed times and the
/// rest of the particles' state — give the same acceleration.
pub proof fn lemma_noise_field_deterministic(
    s: ForceStrategy,
    p: Particle,
    q: Particle,
    dt1: int,
    dt2: int,
)
    requires
        s is NoiseField,
        p.pos == q.pos,
    ensures
        apply_force_spec(s, p, dt1).acceleration == apply_force_spec(s, q, dt2).acceleration,
{
}

/// One whole per-particle step under a field strategy: force application,
/// velocity integration, position integration.
pub open spec fn field_step(s: ForceStrategy, p: Particle, dt: int) -> Particle {
    pos_step(vel_step(apply_force_spec(s, p, dt), dt), dt)
}

/// Advance one particle by one tick of a field strategy.
pub fn step_particle(p: &mut Particle, s: &ForceStrategy, dt: i64)
    requires
        old(p).wf(),
        s.wf(),
        0 <= dt <= LIM,
    ensures
        *final(p) == field_step(*s, *old(p), dt as int),
        final(p).wf(),
{
    apply_force(s, p, dt);
    p.calculate_velocity(dt);
    p.displace(dt);
}

/// The gravitational impulse on `p` from `q`: `g * m_p * m_q / r^2` along the
/// displacement from `p` to `q`, with the squared distance floored at one
/// fixed-point tick, and zero for coincident positions.
pub open spec fn pair_force(g: int, p: Particle, q: Particle) -> (int, int) {
    let dx = q.pos.x - p.pos.x;
    let dy = q.pos.y - p.pos.y;
    let rr = dx * dx + dy * dy;
    if rr == 0 {
        (0, 0)
    } else {
        let r = sqrt_floor(rr as nat) as int;
        let r2raw = rr / (SCALE as int);
        let r2 = if r2raw >= 1 {
            r2raw
        } else {
            1
        };
        let f = sat(tdiv(g * p.mass * q.mass, (SCALE as int) * r2));
        (sat(tdiv(dx * f, r)), sat(tdiv(dy * f, r)))
    }
}

/// Newton's third law, exactly: the impulse on `p` from `q` is the negation
/// of the impulse on `q` from `p`.
pub proof fn lemma_pair_force_antisymmetric(g: int, p: Particle, q: Particle)
    ensures
        pair_force(g, p, q).0 == -pair_force(g, q, p).0,
        pair_force(g, p, q).1 == -pair_force(g, q, p).1,
{
    let dx = q.pos.x - p.pos.x;
    let dy = q.pos.y - p.pos.y;
    assert((-dx) * (-dx) == dx * dx && (-dy) * (-dy) == dy * dy) by (nonlinear_arith);
    let rr = dx * dx + dy * dy;
    if rr != 0 {
        let r = sqrt_floor(rr as nat) as int;
        let r2raw = rr / (SCALE as int);
        let r2 = if r2raw >= 1 {
            r2raw
        } else {
            1
        };
        let f = sat(tdiv(g * p.mass * q.mass, (SCALE as int) * r2));
        assert(g * q.mass * p.mass == g * p.mass * q.mass) by (nonlinear_arith);
        assert((-dx) * f == -(dx * f) && (-dy) * f == -(dy * f)) by (nonlinear_arith);
        assert(rr >= 1) by (nonlinear_arith)
            requires
                rr == dx * dx + dy * dy,
                rr != 0,
        ;
        lemma_sqrt_floor(rr as nat);
        assert(r >= 1) by (nonlinear_arith)
            requires
                1 <= rr,
                rr < (r + 1) * (r + 1),
                r >= 0,
        ;
        lemma_tdiv_neg(dx * f, r);
        lemma_sat_neg(tdiv(dx * f, r));
        lemma_tdiv_neg(dy * f, r);
        lemma_sat_neg(tdiv(dy * f, r));
    }
}

/// Compute the pairwise impulse in machine integers.
pub fn pair_force_exec(g: i64, p: &Particle, q: &Particle) -> (fv: Vec2)
    requires
        p.wf(),
        q.wf(),
        0 <= g <= LIM,
    ensures
        (fv.x as int, fv.y as int) == pair_force(g as int, *p, *q),
        fv.wf(),
{
    let dx: i64 = q.pos.x - p.pos.x;
    let dy: i64 = q.pos.y - p.pos.y;
    proof {
        assert(0 <= (dx as int) * (dx as int) <= 4 * (LIM as int) * (LIM as int) && 0 <= (dy
            as int) * (dy as int) <= 4 * (LIM as int) * (LIM as int)) by (nonlinear_arith)
            requires
                -2 * (LIM as int) <= dx as int <= 2 * (LIM as int),
                -2 * (LIM as int) <= dy as int <= 2 * (LIM as int),
        ;
    }
    let rr: i128 = (dx as i128) * (dx as i128) + (dy as i128) * (dy as i128);
    if rr == 0 {
        return Vec2 { x: 0, y: 0 };
    }
    let rru: u128 = rr as u128;
    let r: u128 = isqrt(rru);
    proof {
        assert(r <= 4 * (LIM as int)) by (nonlinear_arith)
            requires
                r * r <= 8 * (LIM as int) * (LIM as int),
                0 <= r,
                LIM == 1_000_000_000_000i64,
        ;
        assert(r >= 1) by (nonlinear_arith)
            requires
                1 <= rru,
                rru < (r + 1) * (r + 1),
                r >= 0,
        ;
    }
    let ri: i64 = r as i64;
    let r2raw: u128 = rru / 1000;
    let r2: u128 = if r2raw >= 1 {
        r2raw
    } else {
        1
    };
    proof {
        assert(0 <= (g as int) * (p.mass as int) <= (LIM as int) * (LIM as int))
            by (nonlinear_arith)
            requires
                0 <= g as int <= LIM as int,
                0 < p.mass as int <= LIM as int,
        ;
        assert(0 <= (g as int) * (p.mass as int) * (q.mass as int)
            <= 1_000_000_000_000_000_000_000_000_000_000_000_000) by (nonlinear_arith)
            requires
                0 <= (g as int) * (p.mass as int) <= (LIM as int) * (LIM as int),
                0 < q.mass as int <= LIM as int,
                LIM == 1_000_000_000_000i64,
        ;
        assert(1000 * r2 <= 1000 * (8 * (LIM as int) * (LIM as int))) by (nonlinear_arith)
            requires
                r2 <= 8 * (LIM as int) * (LIM as int),
        ;
    }
    let num: u128 = (g as u128) * (p.mass as u128) * (q.mass as u128);
    let den: u128 = 1000 * r2;
    let fq: u128 = num / den;
    let f: i64 = if fq > LIM as u128 {
        LIM
    } else {
        fq as i64
    };
    proof {
        assert(f as int == sat(tdiv((g as int) * (p.mass as int) * (q.mass as int), (SCALE as int)
            * (r2 as int))));
    }
    Vec2 { x: muldiv(dx, f, ri), y: muldiv(dy, f, ri) }
}

} // verus!
