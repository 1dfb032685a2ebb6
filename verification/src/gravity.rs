//! Pairwise gravity: per-tick force accumulation over every unordered pair,
//! and the direct positional impulse it produces.
//!
//! Each pair's impulse is computed once and applied with opposite signs to
//! its two endpoints, into a staging buffer of per-particle force deltas that
//! is merged after the pair loop; the buffer's entries therefore sum to
//! exactly zero.

use vstd::prelude::*;
use crate::forces::{lemma_pair_force_antisymmetric, pair_force, pair_force_exec};
use crate::fp::{abs, in_flim, LIM, MAX_PARTICLES, SCALE};
use crate::particle::Particle;
use crate::vec2::{v_add, v_add_spec, v_scale, v_scale_spec, Vec2};

verus! {

/// The component-wise sum of a sequence of force vectors.
pub open spec fn sum_forces(s: Seq<Vec2>) -> (int, int)
    decreases s.len(),
{
    if s.len() == 0 {
        (0, 0)
    } else {
        let rest = sum_forces(s.drop_last());
        (rest.0 + s.last().x, rest.1 + s.last().y)
    }
}

/// Replacing one entry moves the sum by the difference of that entry.
pub proof fn lemma_sum_forces_update(s: Seq<Vec2>, i: int, v: Vec2)
    requires
        0 <= i < s.len(),
    ensures
        sum_forces(s.update(i, v)).0 == sum_forces(s).0 - s[i].x + v.x,
        sum_forces(s.update(i, v)).1 == sum_forces(s).1 - s[i].y + v.y,
    decreases s.len(),
{
    let t = s.update(i, v);
    if i == s.len() - 1 {
        assert(t.drop_last() =~= s.drop_last());
        assert(t.last() == v);
    } else {
        assert(t.drop_last() =~= s.drop_last().update(i, v));
        lemma_sum_forces_update(s.drop_last(), i, v);
        assert(t.last() == s.last());
    }
}

/// Appending an entry adds it to the sum.
pub proof fn lemma_sum_forces_push(s: Seq<Vec2>, v: Vec2)
    ensures
        sum_forces(s.push(v)).0 == sum_forces(s).0 + v.x,
        sum_forces(s.push(v)).1 == sum_forces(s).1 + v.y,
{
    assert(s.push(v).drop_last() =~= s);
    assert(s.push(v).last() == v);
}

/// The gravitational impulse on particle `k` from the particles at indices
/// below `hi`, itself excluded.
pub open spec fn force_in_range(g: int, s: Seq<Particle>, k: int, hi: int) -> (int, int)
    decreases hi,
{
    if hi <= 0 {
        (0, 0)
    } else {
        let rest = force_in_range(g, s, k, hi - 1);
        if hi - 1 == k {
            rest
        } else {
            let f = pair_force(g, s[k], s[hi - 1]);
            (rest.0 + f.0, rest.1 + f.1)
        }
    }
}

/// The total gravitational impulse on particle `k` from every other particle.
pub open spec fn total_force(g: int, s: Seq<Particle>, k: int) -> (int, int) {
    force_in_range(g, s, k, s.len() as int)
}

/// One pairwise impulse never exceeds the per-pair cap.
pub proof fn lemma_pair_force_in_lim(g: int, p: Particle, q: Particle)
    ensures
        abs(pair_force(g, p, q).0) <= LIM,
        abs(pair_force(g, p, q).1) <= LIM,
{
}

/// A partial accumulated force is bounded by one per-pair cap per summand.
pub proof fn lemma_force_in_range_bound(g: int, s: Seq<Particle>, k: int, hi: int)
    requires
        0 <= hi,
    ensures
        abs(force_in_range(g, s, k, hi).0) <= hi * LIM,
        abs(force_in_range(g, s, k, hi).1) <= hi * LIM,
    decreases hi,
{
    if hi > 0 {
        lemma_force_in_range_bound(g, s, k, hi - 1);
        lemma_pair_force_in_lim(g, s[k], s[hi - 1]);
        assert(hi * LIM == (hi - 1) * LIM + LIM) by (nonlinear_arith);
    }
}

/// The impulses with the pair's roles reversed: the sum of the impulses on
/// `m` from each particle at an index below `kk`, `m` itself excluded.
pub open spec fn force_col_sum(g: int, s: Seq<Particle>, m: int, kk: int) -> (int, int)
    decreases kk,
{
    if kk <= 0 {
        (0, 0)
    } else {
        let rest = force_col_sum(g, s, m, kk - 1);
        if kk - 1 == m {
            rest
        } else {
            let f = pair_force(g, s[kk - 1], s[m]);
            (rest.0 + f.0, rest.1 + f.1)
        }
    }
}

/// By antisymmetry, reversing the roles of every pair negates the sum.
pub proof fn lemma_col_is_neg_row(g: int, s: Seq<Particle>, m: int, kk: int)
    requires
        0 <= kk,
    ensures
        force_col_sum(g, s, m, kk).0 == -force_in_range(g, s, m, kk).0,
        force_col_sum(g, s, m, kk).1 == -force_in_range(g, s, m, kk).1,
    decreases kk,
{
    if kk > 0 {
        lemma_col_is_neg_row(g, s, m, kk - 1);
        if kk - 1 != m {
            lemma_pair_force_antisymmetric(g, s[m], s[kk - 1]);
        }
    }
}

/// The per-particle impulses from sources below `hi`, summed over the
/// particles below `kk`.
pub open spec fn force_grid_sum(g: int, s: Seq<Particle>, kk: int, hi: int) -> (int, int)
    decreases kk,
{
    if kk <= 0 {
        (0, 0)
    } else {
        let rest = force_grid_sum(g, s, kk - 1, hi);
        let row = force_in_range(g, s, kk - 1, hi);
        (rest.0 + row.0, rest.1 + row.1)
    }
}

/// Admitting one more source adds its reversed-role column to the grid sum.
pub proof fn lemma_grid_extend_hi(g: int, s: Seq<Particle>, kk: int, hi: int)
    requires
        0 <= kk,
        0 <= hi,
    ensures
        force_grid_sum(g, s, kk, hi + 1).0 == force_grid_sum(g, s, kk, hi).0 + force_col_sum(
            g,
            s,
            hi,
            kk,
        ).0,
        force_grid_sum(g, s, kk, hi + 1).1 == force_grid_sum(g, s, kk, hi).1 + force_col_sum(
            g,
            s,
            hi,
            kk,
        ).1,
    decreases kk,
{
    if kk > 0 {
        lemma_grid_extend_hi(g, s, kk - 1, hi);
    }
}

/// The square grid of pairwise impulses cancels: every pair appears once in
/// each role, and the two appearances negate each other.
pub proof fn lemma_grid_diag_zero(g: int, s: Seq<Particle>, m: int)
    requires
        0 <= m,
    ensures
        force_grid_sum(g, s, m, m) == (0int, 0int),
    decreases m,
{
    if m > 0 {
        lemma_grid_diag_zero(g, s, m - 1);
        lemma_grid_extend_hi(g, s, m - 1, m - 1);
        lemma_col_is_neg_row(g, s, m - 1, m - 1);
    }
}

/// The total impulses of the particles below `kk`, summed.
pub open spec fn sum_total_forces(g: int, s: Seq<Particle>, kk: int) -> (int, int)
    decreases kk,
{
    if kk <= 0 {
        (0, 0)
    } else {
        let rest = sum_total_forces(g, s, kk - 1);
        let t = total_force(g, s, kk - 1);
        (rest.0 + t.0, rest.1 + t.1)
    }
}

/// The sum of the total impulses is the full square grid.
pub proof fn lemma_sum_total_is_grid(g: int, s: Seq<Particle>, kk: int)
    requires
        0 <= kk,
    ensures
        sum_total_forces(g, s, kk) == force_grid_sum(g, s, kk, s.len() as int),
    decreases kk,
{
    if kk > 0 {
        lemma_sum_total_is_grid(g, s, kk - 1);
    }
}

/// Newton's third law conserves momentum: over any particle collection, the
/// per-particle total gravitational impulses sum to exactly zero.
pub proof fn lemma_total_forces_cancel(g: int, s: Seq<Particle>)
    ensures
        sum_total_forces(g, s, s.len() as int) == (0int, 0int),
{
    lemma_sum_total_is_grid(g, s, s.len() as int);
    lemma_grid_diag_zero(g, s, s.len() as int);
}

/// Accumulate the pairwise gravitational impulses into a staging buffer: the
/// entry for particle `k` is the total impulse on it from every other
/// particle, and — Newton's third law, applied pair by pair — the entries sum
/// to exactly zero.
pub fn accumulate_gravity(particles: &Vec<Particle>, g: i64) -> (forces: Vec<Vec2>)
    requires
        forall|k: int| 0 <= k < particles@.len() ==> (#[trigger] particles@[k]).wf(),
        0 <= g <= LIM,
        particles@.len() <= MAX_PARTICLES,
    ensures
        forces@.len() == particles@.len(),
        forall|k: int|
            0 <= k < particles@.len() ==> ((#[trigger] forces@[k]).x as int, forces@[k].y as int)
                == total_force(g as int, particles@, k),
        sum_forces(forces@).0 == 0,
        sum_forces(forces@).1 == 0,
{
    let s0: Ghost<Seq<Particle>> = Ghost(particles@);
    let gi: Ghost<int> = Ghost(g as int);
    let n: usize = particles.len();
    let mut forces: Vec<Vec2> = Vec::new();
    let mut t: usize = 0;
    while t < n
        invariant
            t <= n,
            forces@.len() == t,
            forall|k: int| 0 <= k < t ==> #[trigger] forces@[k] == (Vec2 { x: 0i64, y: 0i64 }),
            sum_forces(forces@).0 == 0,
            sum_forces(forces@).1 == 0,
        decreases n - t,
    {
        proof {
            lemma_sum_forces_push(forces@, Vec2 { x: 0i64, y: 0i64 });
        }
        forces.push(Vec2 { x: 0, y: 0 });
        t = t + 1;
    }
    let mut i: usize = 0;
    while i < n
        invariant
            i <= n,
            n == s0@.len(),
            s0@ == particles@,
            gi@ == g as int,
            0 <= g <= LIM,
            n <= MAX_PARTICLES,
            forall|k: int| 0 <= k < n ==> (#[trigger] s0@[k]).wf(),
            forces@.len() == n,
            forall|k: int|
                0 <= k < i ==> ((#[trigger] forces@[k]).x as int, forces@[k].y as int)
                    == force_in_range(gi@, s0@, k, n as int),
            forall|k: int|
                i <= k < n ==> ((#[trigger] forces@[k]).x as int, forces@[k].y as int)
                    == force_in_range(gi@, s0@, k, i as int),
            sum_forces(forces@).0 == 0,
            sum_forces(forces@).1 == 0,
        decreases n - i,
    {
        let mut j: usize = i + 1;
        while j < n
            invariant
                i < n,
                i < j <= n,
                n == s0@.len(),
                s0@ == particles@,
                gi@ == g as int,
                0 <= g <= LIM,
                n <= MAX_PARTICLES,
                forall|k: int| 0 <= k < n ==> (#[trigger] s0@[k]).wf(),
                forces@.len() == n,
                forall|k: int|
                    0 <= k < i ==> ((#[trigger] forces@[k]).x as int, forces@[k].y as int)
                        == force_in_range(gi@, s0@, k, n as int),
                ((forces@[i as int]).x as int, forces@[i as int].y as int) == force_in_range(
                    gi@,
                    s0@,
                    i as int,
                    j as int,
                ),
                forall|k: int|
                    i < k < j ==> ((#[trigger] forces@[k]).x as int, forces@[k].y as int)
                        == force_in_range(gi@, s0@, k, i as int + 1),
                forall|k: int|
                    j <= k < n ==> ((#[trigger] forces@[k]).x as int, forces@[k].y as int)
                        == force_in_range(gi@, s0@, k, i as int),
                sum_forces(forces@).0 == 0,
                sum_forces(forces@).1 == 0,
            decreases n - j,
        {
            let pi: Particle = particles[i];
            let pj: Particle = particles[j];
            let fv: Vec2 = pair_force_exec(g, &pi, &pj);
            proof {
                lemma_force_in_range_bound(gi@, s0@, i as int, j as int);
                lemma_force_in_range_bound(gi@, s0@, j as int, i as int);
                lemma_pair_force_in_lim(gi@, s0@[i as int], s0@[j as int]);
                lemma_pair_force_in_lim(gi@, s0@[j as int], s0@[i as int]);
                lemma_pair_force_antisymmetric(gi@, s0@[i as int], s0@[j as int]);
                assert(j as int * LIM <= 1_000_000 * 1_000_000_000_000i64) by (nonlinear_arith)
                    requires
                        0 <= j as int <= 1_000_000,
                        LIM == 1_000_000_000_000i64,
                ;
                assert(i as int * LIM <= 1_000_000 * 1_000_000_000_000i64) by (nonlinear_arith)
                    requires
                        0 <= i as int <= 1_000_000,
                        LIM == 1_000_000_000_000i64,
                ;
            }
            let fi: Vec2 = forces[i];
            let nfi: Vec2 = Vec2 { x: fi.x + fv.x, y: fi.y + fv.y };
            let ghost pre_update: Seq<Vec2> = forces@;
            forces[i] = nfi;
            proof {
                lemma_sum_forces_update(pre_update, i as int, nfi);
            }
            let fj: Vec2 = forces[j];
            let nfj: Vec2 = Vec2 { x: fj.x - fv.x, y: fj.y - fv.y };
            let ghost mid_update: Seq<Vec2> = forces@;
            forces[j] = nfj;
            proof {
                lemma_sum_forces_update(mid_update, j as int, nfj);
                assert(force_in_range(gi@, s0@, i as int, j as int + 1).0 == force_in_range(
                    gi@,
                    s0@,
                    i as int,
                    j as int,
                ).0 + pair_force(gi@, s0@[i as int], s0@[j as int]).0);
                assert(force_in_range(gi@, s0@, j as int, i as int + 1).0 == force_in_range(
                    gi@,
                    s0@,
                    j as int,
                    i as int,
                ).0 + pair_force(gi@, s0@[j as int], s0@[i as int]).0);
            }
            j = j + 1;
        }
        i = i + 1;
    }
    forces
}

/// Where a pairwise tick leaves particle `k` before the boundary pass: the
/// total impulse is stored as its accumulated force and applied directly to
/// its position, scaled by the elapsed time; velocity and acceleration are
/// untouched.
pub open spec fn gravity_step(g: int, s: Seq<Particle>, k: int, dt: int) -> Particle {
    let f = Vec2 { x: total_force(g, s, k).0 as i64, y: total_force(g, s, k).1 as i64 };
    Particle {
        accumulated_force: f,
        pos: v_add_spec(s[k].pos, v_scale_spec(f, dt, SCALE as int)),
        ..s[k]
    }
}

/// Store each particle's accumulated force and apply it as a direct
/// positional impulse.
pub fn apply_gravity_impulses(particles: &mut Vec<Particle>, forces: &Vec<Vec2>, dt: i64)
    requires
        forces@.len() == old(particles)@.len(),
        forall|k: int| 0 <= k < old(particles)@.len() ==> (#[trigger] old(particles)@[k]).wf(),
        forall|k: int|
            0 <= k < forces@.len() ==> in_flim((#[trigger] forces@[k]).x as int) && in_flim(
                forces@[k].y as int,
            ),
        0 <= dt <= LIM,
    ensures
        final(particles)@.len() == old(particles)@.len(),
        forall|k: int|
            0 <= k < old(particles)@.len() ==> #[trigger] final(particles)@[k] == (Particle {
                accumulated_force: forces@[k],
                pos: v_add_spec(
                    old(particles)@[k].pos,
                    v_scale_spec(forces@[k], dt as int, SCALE as int),
                ),
                ..old(particles)@[k]
            }),
        forall|k: int| 0 <= k < final(particles)@.len() ==> (#[trigger] final(particles)@[k]).wf(),
{
    let n: usize = particles.len();
    let mut i: usize = 0;
    while i < n
        invariant
            i <= n,
            n == old(particles)@.len(),
            particles@.len() == n,
            forces@.len() == n,
            0 <= dt <= LIM,
            forall|k: int| 0 <= k < n ==> (#[trigger] old(particles)@[k]).wf(),
            forall|k: int|
                0 <= k < n ==> in_flim((#[trigger] forces@[k]).x as int) && in_flim(
                    forces@[k].y as int,
                ),
            forall|k: int| i <= k < n ==> #[trigger] particles@[k] == old(particles)@[k],
            forall|k: int|
                0 <= k < i ==> #[trigger] particles@[k] == (Particle {
                    accumulated_force: forces@[k],
                    pos: v_add_spec(
                        old(particles)@[k].pos,
                        v_scale_spec(forces@[k], dt as int, SCALE as int),
                    ),
                    ..old(particles)@[k]
                }),
            forall|k: int| 0 <= k < i ==> (#[trigger] particles@[k]).wf(),
        decreases n - i,
    {
        let mut p: Particle = particles[i];
        let f: Vec2 = forces[i];
        p.accumulated_force = f;
        p.pos = v_add(p.pos, v_scale(f, dt, SCALE));
        particles[i] = p;
        i = i + 1;
    }
}

} // verus!
