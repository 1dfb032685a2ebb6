//! The per-particle mutable record and its two integration steps.

use vstd::prelude::*;
use crate::fp::{in_flim, in_lim, LIM, SCALE};
use crate::vec2::{clamp_len, clamp_len_spec, lemma_clamp_len_bounds, v_add, v_add_spec, v_scale,
    v_scale_spec, Vec2};

verus! {

/// One point particle: kinematic state plus immutable per-particle
/// configuration and opaque render attributes.
#[derive(Clone, Copy, PartialEq, Eq, Debug)]
pub struct Particle {
    /// Opaque render color, assigned at spawn.
    pub color: u32,
    pub pos: Vec2,
    /// Strictly positive; also used as the render diameter.
    pub mass: i64,
    pub velocity: Vec2,
    pub acceleration: Vec2,
    /// Per-tick pairwise-gravity accumulator; unused by the field strategies.
    pub accumulated_force: Vec2,
    /// Bounce coefficient; carried per-particle configuration, not read by
    /// the integrator.
    pub spring: i64,
    /// Cap on the velocity magnitude, when set.
    pub terminal_vel: Option<i64>,
}

impl Particle {
    /// Well-formedness: every stored quantity is within the magnitude cap and
    /// the mass is strictly positive.
    pub open spec fn wf(self) -> bool {
        &&& self.pos.wf()
        &&& self.velocity.wf()
        &&& self.acceleration.wf()
        &&& in_flim(self.accumulated_force.x as int)
        &&& in_flim(self.accumulated_force.y as int)
        &&& 0 < self.mass <= LIM
        &&& in_lim(self.spring as int)
        &&& match self.terminal_vel {
            Some(t) => 0 <= t <= LIM && self.velocity.mag_sq() <= t * t,
            None => true,
        }
    }

    /// A fresh particle at rest: no velocity, no acceleration, no accumulated
    /// force, default color, no spring, no terminal speed.
    pub fn new(mass: i64, pos: Vec2) -> (p: Particle)
        requires
            0 < mass <= LIM,
            pos.wf(),
        ensures
            p.wf(),
            p.mass == mass,
            p.pos == pos,
            p.velocity.is_zero(),
            p.acceleration.is_zero(),
            p.accumulated_force.is_zero(),
            p.spring == 0,
            p.terminal_vel is None,
    {
        Particle {
            color: 0xffff_ffff,
            pos,
            mass,
            velocity: Vec2 { x: 0, y: 0 },
            acceleration: Vec2 { x: 0, y: 0 },
            accumulated_force: Vec2 { x: 0, y: 0 },
            spring: 0,
            terminal_vel: None,
        }
    }

    pub fn with_color(self, color: u32) -> (p: Particle)
        ensures
            p == (Particle { color, ..self }),
    {
        Particle { color, ..self }
    }

    pub fn with_spring(self, bounce: i64) -> (p: Particle)
        requires
            in_lim(bounce as int),
        ensures
            p == (Particle { spring: bounce, ..self }),
    {
        Particle { spring: bounce, ..self }
    }

    pub fn with_terminal_velocity(self, limit: Option<i64>) -> (p: Particle)
        requires
            match limit {
                Some(t) => 0 <= t <= LIM,
                None => true,
            },
        ensures
            p == (Particle { terminal_vel: limit, ..self }),
    {
        Particle { terminal_vel: limit, ..self }
    }

    /// Add the acceleration, scaled by the elapsed time, to the velocity, and
    /// clamp the velocity's magnitude to the terminal speed when one is set.
    pub fn calculate_velocity(&mut self, dt: i64)
        requires
            old(self).wf(),
            0 <= dt,
        ensures
            *final(self) == vel_step(*old(self), dt as int),
            final(self).wf(),
    {
        let raw: Vec2 = v_add(self.velocity, v_scale(self.acceleration, dt, SCALE));
        match self.terminal_vel {
            Some(limit) => {
                proof {
                    lemma_clamp_len_bounds(raw.x as int, raw.y as int, limit as int);
                }
                self.velocity = clamp_len(raw, limit);
            }
            None => {
                self.velocity = raw;
            }
        }
    }

    /// Add the velocity, scaled by the elapsed time, to the position.
    pub fn displace(&mut self, dt: i64)
        requires
            old(self).wf(),
            0 <= dt,
        ensures
            *final(self) == pos_step(*old(self), dt as int),
            final(self).wf(),
    {
        self.pos = v_add(self.pos, v_scale(self.velocity, dt, SCALE));
    }
}

/// The velocity integration step: `velocity + acceleration * dt`, clamped to
/// the terminal speed when one is set.
pub open spec fn vel_step(p: Particle, dt: int) -> Particle {
    let raw = v_add_spec(p.velocity, v_scale_spec(p.acceleration, dt, SCALE as int));
    let v = match p.terminal_vel {
        Some(t) => {
            let (cx, cy) = clamp_len_spec(raw.x as int, raw.y as int, t as int);
            Vec2 { x: cx as i64, y: cy as i64 }
        }
        None => raw,
    };
    Particle { velocity: v, ..p }
}

/// The position integration step: `pos + velocity * dt`.
pub open spec fn pos_step(p: Particle, dt: int) -> Particle {
    Particle { pos: v_add_spec(p.pos, v_scale_spec(p.velocity, dt, SCALE as int)), ..p }
}

/// After the velocity step and then the position step, a particle with a
/// terminal speed never moves faster than it: the squared magnitude of its
/// velocity stays at or below the square of the terminal speed.
pub proof fn lemma_terminal_speed(p: Particle, dt: int, t: int)
    requires
        p.wf(),
        0 <= dt,
        p.terminal_vel == Some(t as i64),
        0 <= t <= LIM,
    ensures
        pos_step(vel_step(p, dt), dt).velocity.mag_sq() <= t * t,
{
    let raw = v_add_spec(p.velocity, v_scale_spec(p.acceleration, dt, SCALE as int));
    lemma_clamp_len_bounds(raw.x as int, raw.y as int, t);
}

} // verus!
