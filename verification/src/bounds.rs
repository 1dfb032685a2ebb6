//! Boundary policies: what happens to a particle that leaves the bounds
//! rectangle after integration.

use vstd::prelude::*;
use crate::fp::LIM;
use crate::particle::Particle;
use crate::rng::rand_range;
use crate::vec2::Vec2;

verus! {

/// The policy applied to a particle whose position leaves the rectangle.
#[derive(Clone, Copy, PartialEq, Eq, Structural, Debug)]
pub enum OutOfBoundsEffect {
    /// Move the particle to a fresh uniformly random in-bounds position and
    /// bring it to rest: velocity and acceleration become exactly zero.
    Respawn,
    /// Map each escaped position component to the opposite bound; velocity
    /// and acceleration are kept.
    WrapAround,
}

/// A bounds rectangle: positive half-extents on both axes.
pub open spec fn bounds_wf(w: Vec2) -> bool {
    0 < w.x <= LIM && 0 < w.y <= LIM
}

/// Outside the rectangle on either axis.
pub open spec fn out_of_bounds(pos: Vec2, w: Vec2) -> bool {
    pos.x > w.x || pos.x < -w.x || pos.y > w.y || pos.y < -w.y
}

/// Wrap one coordinate: past the positive bound it reappears at the negative
/// bound, and the other way round.
pub open spec fn wrap_coord(x: int, b: int) -> int {
    if x > b {
        -b
    } else if x < -b {
        b
    } else {
        x
    }
}

/// The wrapped position.
pub open spec fn wrap_pos(pos: Vec2, w: Vec2) -> Vec2 {
    Vec2 { x: wrap_coord(pos.x as int, w.x as int) as i64, y: wrap_coord(pos.y as int, w.y as int) as i64 }
}

/// A respawn outcome: some in-bounds position, at rest, everything else kept.
pub open spec fn respawned_from(pre: Particle, post: Particle, w: Vec2) -> bool {
    &&& !out_of_bounds(post.pos, w)
    &&& post.pos.wf()
    &&& post.velocity.is_zero()
    &&& post.acceleration.is_zero()
    &&& post.color == pre.color
    &&& post.mass == pre.mass
    &&& post.accumulated_force == pre.accumulated_force
    &&& post.spring == pre.spring
    &&& post.terminal_vel == pre.terminal_vel
}

/// How one boundary pass relates a particle before and after: an in-bounds
/// particle is untouched; an escaped one is wrapped or respawned according to
/// the policy.
pub open spec fn boundary_fix_rel(
    pre: Particle,
    post: Particle,
    w: Vec2,
    policy: OutOfBoundsEffect,
) -> bool {
    if !out_of_bounds(pre.pos, w) {
        post == pre
    } else {
        match policy {
            OutOfBoundsEffect::WrapAround => post == (Particle { pos: wrap_pos(pre.pos, w), ..pre }),
            OutOfBoundsEffect::Respawn => respawned_from(pre, post, w),
        }
    }
}

/// Reset a particle to a uniformly random in-bounds position, at rest.
fn respawn_particle(p: &mut Particle, w: Vec2, rng: &mut rand::rngs::ThreadRng)
    requires
        old(p).wf(),
        bounds_wf(w),
    ensures
        respawned_from(*old(p), *final(p), w),
        final(p).wf(),
{
    let x: i64 = rand_range(rng, -w.x, w.x);
    let y: i64 = rand_range(rng, -w.y, w.y);
    p.pos = Vec2 { x, y };
    p.velocity = Vec2 { x: 0, y: 0 };
    p.acceleration = Vec2 { x: 0, y: 0 };
}

/// Apply the boundary policy to every particle. Afterwards no particle lies
/// outside the rectangle.
pub fn boundary_pass(
    particles: &mut Vec<Particle>,
    w: Vec2,
    policy: OutOfBoundsEffect,
    rng: &mut rand::rngs::ThreadRng,
)
    requires
        forall|k: int| 0 <= k < old(particles)@.len() ==> (#[trigger] old(particles)@[k]).wf(),
        bounds_wf(w),
    ensures
        final(particles)@.len() == old(particles)@.len(),
        forall|k: int|
            0 <= k < old(particles)@.len() ==> boundary_fix_rel(
                old(particles)@[k],
                #[trigger] final(particles)@[k],
                w,
                policy,
            ),
        forall|k: int|
            0 <= k < final(particles)@.len() ==> !out_of_bounds(
                (#[trigger] final(particles)@[k]).pos,
                w,
            ) && final(particles)@[k].wf(),
{
    let n: usize = particles.len();
    let mut i: usize = 0;
    while i < n
        invariant
            i <= n,
            particles@.len() == n,
            n == old(particles)@.len(),
            bounds_wf(w),
            forall|k: int| 0 <= k < n ==> (#[trigger] old(particles)@[k]).wf(),
            forall|k: int| i <= k < n ==> #[trigger] particles@[k] == old(particles)@[k],
            forall|k: int|
                0 <= k < i ==> boundary_fix_rel(
                    old(particles)@[k],
                    #[trigger] particles@[k],
                    w,
                    policy,
                ),
            forall|k: int|
                0 <= k < i ==> !out_of_bounds((#[trigger] particles@[k]).pos, w)
                    && particles@[k].wf(),
        decreases n - i,
    {
        let mut p: Particle = particles[i];
        let escaped: bool = p.pos.x > w.x || p.pos.x < -w.x || p.pos.y > w.y || p.pos.y < -w.y;
        if escaped {
            match policy {
                OutOfBoundsEffect::Respawn => {
                    respawn_particle(&mut p, w, rng);
                }
                OutOfBoundsEffect::WrapAround => {
                    let nx: i64 = if p.pos.x > w.x {
                        -w.x
                    } else if p.pos.x < -w.x {
                        w.x
                    } else {
                        p.pos.x
                    };
                    let ny: i64 = if p.pos.y > w.y {
                        -w.y
                    } else if p.pos.y < -w.y {
                        w.y
                    } else {
                        p.pos.y
                    };
                    p.pos = Vec2 { x: nx, y: ny };
                }
            }
            particles[i] = p;
        }
        i = i + 1;
    }
}

} // verus!
