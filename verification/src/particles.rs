//! The simulation root: the particle collection, the active force strategy,
//! and the per-frame tick.

use vstd::prelude::*;
use crate::bounds::{boundary_fix_rel, bounds_wf, out_of_bounds, OutOfBoundsEffect, boundary_pass};
use crate::forces::{field_step, ForceStrategy};
use crate::fp::{in_flim, LIM, MAX_PARTICLES, SCALE};
use crate::gravity::{accumulate_gravity, apply_gravity_impulses, gravity_step,
    lemma_force_in_range_bound, sum_forces, total_force};
use crate::par::par_step_particles;
use crate::particle::Particle;
use crate::rng::{rand_index, rand_range, rand_range_inclusive};
use crate::vec2::Vec2;

verus! {

/// The bounce coefficient every spawned particle carries.
pub const DEFAULT_SPRING: i64 = -400;

/// A construction-time misconfiguration; nothing is built.
#[derive(Clone, Copy, PartialEq, Eq, Structural, Debug)]
pub enum ConfigError {
    /// The particle count was zero.
    ZeroParticleCount,
    /// The mass range's minimum exceeded its maximum.
    InvertedMassRange,
    /// A color had to be sampled but the palette was empty.
    EmptyPalette,
}

/// What the render sink needs for one particle: position, diameter, color.
#[derive(Clone, Copy, PartialEq, Eq, Structural, Debug)]
pub struct RenderDot {
    pub x: i64,
    pub y: i64,
    pub diameter: i64,
    pub color: u32,
}

/// The per-particle forces a sequence of particles carries.
pub open spec fn forces_of(s: Seq<Particle>) -> Seq<Vec2> {
    s.map(|k: int, p: Particle| p.accumulated_force)
}

/// The simulation: a particle collection, driven each frame by `tick` under a
/// force strategy fixed at construction, inside a bounds rectangle.
pub struct Particles {
    /// The boundary policy.
    pub wrap: OutOfBoundsEffect,
    /// Background fade alpha in `[0, SCALE]` for a motion-trail effect, if
    /// any; render configuration the sink reads from the snapshot's owner.
    pub trail: Option<i64>,
    pub particles: Vec<Particle>,
    pub force_map: ForceStrategy,
    /// Half-extents of the bounds rectangle around the origin.
    pub window: Vec2,
}

/// Where a tick leaves particle `k` just before the boundary pass.
pub open spec fn pre_boundary_step(sim: Particles, k: int, dt: int) -> Particle {
    match sim.force_map {
        ForceStrategy::PairwiseGravity { g } => gravity_step(g as int, sim.particles@, k, dt),
        _ => field_step(sim.force_map, sim.particles@[k], dt),
    }
}

impl Particles {
    /// Well-formedness: valid strategy and bounds, a bounded particle count,
    /// and every particle well-formed.
    pub open spec fn wf(self) -> bool {
        &&& self.force_map.wf()
        &&& bounds_wf(self.window)
        &&& self.particles@.len() <= MAX_PARTICLES
        &&& forall|k: int| 0 <= k < self.particles@.len() ==> (#[trigger] self.particles@[k]).wf()
        &&& match self.trail {
            Some(t) => 0 <= t <= SCALE,
            None => true,
        }
    }

    /// Build a simulation of `particle_qty` particles, each at an independent
    /// uniformly random position inside the bounds rectangle, with a uniform
    /// random mass from `mass_clamp`, a color drawn uniformly from `colors`,
    /// the default spring, and `limit` as terminal speed; at rest, under the
    /// respawn boundary policy, with no trail.
    ///
    /// Misconfiguration fails without building anything: a zero count, then
    /// an inverted mass range, then an empty palette.
    pub fn new(
        force_map: ForceStrategy,
        particle_qty: usize,
        mass_clamp: (i64, i64),
        size: Vec2,
        limit: Option<i64>,
        colors: Vec<u32>,
        rng: &mut rand::rngs::ThreadRng,
    ) -> (r: Result<Particles, ConfigError>)
        requires
            force_map.wf(),
            bounds_wf(size),
            0 < mass_clamp.0 <= LIM,
            0 < mass_clamp.1 <= LIM,
            particle_qty <= MAX_PARTICLES,
            match limit {
                Some(t) => 0 <= t <= LIM,
                None => true,
            },
        ensures
            r is Ok <==> (particle_qty > 0 && mass_clamp.0 <= mass_clamp.1 && colors@.len() > 0),
            particle_qty == 0 ==> r == Result::<Particles, ConfigError>::Err(
                ConfigError::ZeroParticleCount,
            ),
            particle_qty > 0 && mass_clamp.0 > mass_clamp.1 ==> r == Result::<
                Particles,
                ConfigError,
            >::Err(ConfigError::InvertedMassRange),
            particle_qty > 0 && mass_clamp.0 <= mass_clamp.1 && colors@.len() == 0 ==> r
                == Result::<Particles, ConfigError>::Err(ConfigError::EmptyPalette),
            r matches Ok(sim) ==> {
                &&& sim.wf()
                &&& sim.particles@.len() == particle_qty
                &&& sim.force_map == force_map
                &&& sim.window == size
                &&& sim.wrap == OutOfBoundsEffect::Respawn
                &&& sim.trail is None
                &&& forall|k: int|
                    0 <= k < particle_qty ==> {
                        let p = #[trigger] sim.particles@[k];
                        &&& mass_clamp.0 <= p.mass <= mass_clamp.1
                        &&& !out_of_bounds(p.pos, size)
                        &&& p.velocity.is_zero()
                        &&& p.acceleration.is_zero()
                        &&& p.accumulated_force.is_zero()
                        &&& p.spring == DEFAULT_SPRING
                        &&& p.terminal_vel == limit
                        &&& colors@.contains(p.color)
                    }
            },
    {
        if particle_qty == 0 {
            return Err(ConfigError::ZeroParticleCount);
        }
        if mass_clamp.0 > mass_clamp.1 {
            return Err(ConfigError::InvertedMassRange);
        }
        if colors.len() == 0 {
            return Err(ConfigError::EmptyPalette);
        }
        let mut particles: Vec<Particle> = Vec::new();
        let mut built: usize = 0;
        while built < particle_qty
            invariant
                built <= particle_qty,
                particles@.len() == built,
                0 < mass_clamp.0 <= LIM,
                0 < mass_clamp.1 <= LIM,
                mass_clamp.0 <= mass_clamp.1,
                bounds_wf(size),
                colors@.len() > 0,
                match limit {
                    Some(t) => 0 <= t <= LIM,
                    None => true,
                },
                forall|k: int|
                    0 <= k < built ==> {
                        let p = #[trigger] particles@[k];
                        &&& p.wf()
                        &&& mass_clamp.0 <= p.mass <= mass_clamp.1
                        &&& !out_of_bounds(p.pos, size)
                        &&& p.velocity.is_zero()
                        &&& p.acceleration.is_zero()
                        &&& p.accumulated_force.is_zero()
                        &&& p.spring == DEFAULT_SPRING
                        &&& p.terminal_vel == limit
                        &&& colors@.contains(p.color)
                    },
            decreases particle_qty - built,
        {
            let m: i64 = rand_range_inclusive(rng, mass_clamp.0, mass_clamp.1);
            let px: i64 = rand_range(rng, -size.x, size.x);
            let py: i64 = rand_range(rng, -size.y, size.y);
            let ci: usize = rand_index(rng, colors.len());
            let color: u32 = colors[ci];
            proof {
                assert(colors@.contains(colors@[ci as int]));
            }
            let p: Particle = Particle::new(m, Vec2 { x: px, y: py }).with_spring(
                DEFAULT_SPRING,
            ).with_terminal_velocity(limit).with_color(color);
            particles.push(p);
            built = built + 1;
        }
        Ok(
            Particles {
                wrap: OutOfBoundsEffect::Respawn,
                trail: None,
                particles,
                force_map,
                window: size,
            },
        )
    }

    /// Set a translucent background fade for a motion-trail effect.
    pub fn with_trail(self, trail: i64) -> (r: Particles)
        requires
            0 <= trail <= SCALE,
        ensures
            r == (Particles { trail: Some(trail), ..self }),
    {
        Particles { trail: Some(trail), ..self }
    }

    /// Select the boundary policy.
    pub fn set_bounds(&mut self, bounds: OutOfBoundsEffect)
        ensures
            *final(self) == (Particles { wrap: bounds, ..*old(self) }),
    {
        self.wrap = bounds;
    }

    /// Advance the whole simulation by one elapsed-time step: apply the force
    /// strategy (data-parallel for the field strategies; the pairwise loop
    /// for gravity), integrate, then apply the boundary policy. Afterwards no
    /// particle lies outside the bounds rectangle, and under pairwise gravity
    /// the stored accumulated forces sum to exactly zero.
    pub fn tick(&mut self, dt: i64, rng: &mut rand::rngs::ThreadRng)
        requires
            old(self).wf(),
            0 <= dt <= LIM,
        ensures
            final(self).wf(),
            final(self).particles@.len() == old(self).particles@.len(),
            final(self).force_map == old(self).force_map,
            final(self).window == old(self).window,
            final(self).wrap == old(self).wrap,
            final(self).trail == old(self).trail,
            forall|k: int|
                0 <= k < old(self).particles@.len() ==> boundary_fix_rel(
                    pre_boundary_step(*old(self), k, dt as int),
                    #[trigger] final(self).particles@[k],
                    old(self).window,
                    old(self).wrap,
                ),
            forall|k: int|
                0 <= k < final(self).particles@.len() ==> !out_of_bounds(
                    (#[trigger] final(self).particles@[k]).pos,
                    old(self).window,
                ),
            old(self).force_map is PairwiseGravity ==> sum_forces(
                forces_of(final(self).particles@),
            ) == (0int, 0int),
    {
        let strategy: ForceStrategy = self.force_map;
        let ghost s0: Seq<Particle> = self.particles@;
        match strategy {
            ForceStrategy::PairwiseGravity { g } => {
                let forces: Vec<Vec2> = accumulate_gravity(&self.particles, g);
                proof {
                    assert forall|k: int| 0 <= k < forces@.len() implies in_flim(
                        (#[trigger] forces@[k]).x as int,
                    ) && in_flim(forces@[k].y as int) by {
                        lemma_force_in_range_bound(g as int, s0, k, s0.len() as int);
                        assert(s0.len() as int * LIM <= 1_000_000 * 1_000_000_000_000i64)
                            by (nonlinear_arith)
                            requires
                                0 <= s0.len() as int <= 1_000_000,
                                LIM == 1_000_000_000_000i64,
                        ;
                    }
                }
                apply_gravity_impulses(&mut self.particles, &forces, dt);
                proof {
                    assert forall|k: int| 0 <= k < s0.len() implies #[trigger] self.particles@[k]
                        == gravity_step(g as int, s0, k, dt as int) by {
                        lemma_force_in_range_bound(g as int, s0, k, s0.len() as int);
                        assert(s0.len() as int * LIM <= 1_000_000 * 1_000_000_000_000i64)
                            by (nonlinear_arith)
                            requires
                                0 <= s0.len() as int <= 1_000_000,
                                LIM == 1_000_000_000_000i64,
                        ;
                        assert(forces@[k].x as int == total_force(g as int, s0, k).0);
                        assert(forces@[k] == (Vec2 {
                            x: total_force(g as int, s0, k).0 as i64,
                            y: total_force(g as int, s0, k).1 as i64,
                        }));
                    }
                    assert(forces_of(self.particles@) =~= forces@);
                }
            }
            _ => {
                par_step_particles(&mut self.particles, &strategy, dt);
            }
        }
        let ghost mid: Seq<Particle> = self.particles@;
        let w: Vec2 = self.window;
        let policy: OutOfBoundsEffect = self.wrap;
        boundary_pass(&mut self.particles, w, policy, rng);
        proof {
            if old(self).force_map is PairwiseGravity {
                assert forall|k: int| 0 <= k < mid.len() implies (#[trigger] self.particles@[k])
                    .accumulated_force == mid[k].accumulated_force by {
                    assert(boundary_fix_rel(mid[k], self.particles@[k], w, policy));
                }
                assert(forces_of(self.particles@) =~= forces_of(mid));
            }
        }
    }

    /// A read-only render snapshot: one dot per particle, in order — its
    /// position, its mass as the diameter, and its color.
    pub fn snapshot(&self) -> (dots: Vec<RenderDot>)
        ensures
            dots@.len() == self.particles@.len(),
            forall|k: int|
                0 <= k < dots@.len() ==> {
                    let d = #[trigger] dots@[k];
                    let p = self.particles@[k];
                    d.x == p.pos.x && d.y == p.pos.y && d.diameter == p.mass && d.color == p.color
                },
    {
        let n: usize = self.particles.len();
        let mut dots: Vec<RenderDot> = Vec::new();
        let mut i: usize = 0;
        while i < n
            invariant
                i <= n,
                n == self.particles@.len(),
                dots@.len() == i,
                forall|k: int|
                    0 <= k < i ==> {
                        let d = #[trigger] dots@[k];
                        let p = self.particles@[k];
                        d.x == p.pos.x && d.y == p.pos.y && d.diameter == p.mass && d.color
                            == p.color
                    },
            decreases n - i,
        {
            let p: Particle = self.particles[i];
            dots.push(RenderDot { x: p.pos.x, y: p.pos.y, diameter: p.mass, color: p.color });
            i = i + 1;
        }
        dots
    }
}

} // verus!
