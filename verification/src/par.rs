//! The data-parallel fan-out over the particle collection.
//!
//! Field strategies touch each particle independently, so a tick's per-particle
//! work is an embarrassingly-parallel map: each particle is handed to exactly
//! one worker and no state is shared between particles.

use vstd::prelude::*;
use rayon::iter::IntoParallelRefMutIterator;
use rayon::iter::ParallelIterator;
use crate::forces::{field_step, step_particle, ForceStrategy};
use crate::fp::LIM;
use crate::particle::Particle;

verus! {

/// Relies on rayon's `par_iter_mut().for_each`: the closure runs exactly once
/// on each element, each element goes to exactly one worker, and the closure
/// here only calls the verified `step_particle`, so element `k` afterwards is
/// `step_particle`'s result on the old element `k`.
#[verifier::external_body]
pub(crate) fn par_step_particles(particles: &mut Vec<Particle>, s: &ForceStrategy, dt: i64)
    requires
        forall|k: int| 0 <= k < old(particles)@.len() ==> old(particles)@[k].wf(),
        s.wf(),
        0 <= dt <= LIM,
    ensures
        final(particles)@.len() == old(particles)@.len(),
        forall|k: int|
            0 <= k < old(particles)@.len() ==> #[trigger] final(particles)@[k] == field_step(
                *s,
                old(particles)@[k],
                dt as int,
            ),
        forall|k: int| 0 <= k < final(particles)@.len() ==> #[trigger] final(particles)@[k].wf(),
{
    particles.par_iter_mut().for_each(|p: &mut Particle| step_particle(p, s, dt));
}

} // verus!
