use sim::bounds::OutOfBoundsEffect;
use sim::forces::{apply_force, pair_force_exec, ForceStrategy};
use sim::fp::{isqrt, isqrt_up, muldiv, sat_add, LIM, SCALE};
use sim::noise::{dir_of_turns_exec, sample, sin_turns_exec};
use sim::particle::Particle;
use sim::particles::{ConfigError, Particles, DEFAULT_SPRING};
use sim::vec2::Vec2;

fn at(mass: i64, x: i64, y: i64) -> Particle {
    Particle::new(mass, Vec2 { x, y })
}

fn big_window() -> Vec2 {
    Vec2 { x: 1_000_000, y: 1_000_000 }
}

fn sim_with(particles: Vec<Particle>, force_map: ForceStrategy, window: Vec2) -> Particles {
    Particles { wrap: OutOfBoundsEffect::WrapAround, trail: None, particles, force_map, window }
}

#[test]
fn fixed_point_helpers() {
    assert_eq!(isqrt(0), 0);
    assert_eq!(isqrt(144), 12);
    assert_eq!(isqrt(145), 12);
    assert_eq!(isqrt_up(144), 12);
    assert_eq!(isqrt_up(145), 13);
    assert_eq!(muldiv(3000, 500, 1000), 1500);
    assert_eq!(muldiv(-3000, 500, 1000), -1500);
    assert_eq!(sat_add(LIM, LIM), LIM);
    assert_eq!(sat_add(-LIM, -LIM), -LIM);
}

#[test]
fn sine_quarter_points() {
    assert_eq!(sin_turns_exec(0), 0);
    assert_eq!(sin_turns_exec(250), SCALE);
    assert_eq!(sin_turns_exec(500), 0);
    assert_eq!(sin_turns_exec(750), -SCALE);
    assert_eq!(dir_of_turns_exec(0), Vec2 { x: SCALE, y: 0 });
    assert_eq!(dir_of_turns_exec(500), Vec2 { x: -SCALE, y: 0 });
}

// A single particle under a uniform downward field, starting at rest: after
// one tick of one second, velocity is the field pull, and the position moved
// by the post-tick velocity.
#[test]
fn uniform_field_one_second() {
    let mut rng = rand::thread_rng();
    let p = at(2000, 0, 0);
    let field = ForceStrategy::uniform_field(Vec2 { x: 0, y: -9810 });
    let mut s = sim_with(vec![p], field, big_window());
    s.tick(1000, &mut rng);
    assert_eq!(s.particles[0].velocity, Vec2 { x: 0, y: -9810 });
    assert_eq!(s.particles[0].pos, Vec2 { x: 0, y: -9810 });
}

// Two particles, masses 10 and 20, at (0,0) and (10,0), G = 1: the pair's
// force magnitude is 1 * 10 * 20 / 10^2 = 2, along +x for the first particle
// and -x for the second.
#[test]
fn two_body_gravity_forces() {
    let mut rng = rand::thread_rng();
    let a = at(10_000, 0, 0);
    let b = at(20_000, 10_000, 0);
    let grav = ForceStrategy::pairwise_gravity(1000);
    let mut s = sim_with(vec![a, b], grav, big_window());
    s.tick(1000, &mut rng);
    assert_eq!(s.particles[0].accumulated_force, Vec2 { x: 2000, y: 0 });
    assert_eq!(s.particles[1].accumulated_force, Vec2 { x: -2000, y: 0 });
    // the impulse moves the positions directly, by force * dt
    assert_eq!(s.particles[0].pos, Vec2 { x: 2000, y: 0 });
    assert_eq!(s.particles[1].pos, Vec2 { x: 8000, y: 0 });
    // velocity is untouched by the pairwise mode
    assert_eq!(s.particles[0].velocity, Vec2 { x: 0, y: 0 });
}

// The pairwise impulse is antisymmetric for any pair.
#[test]
fn pair_force_is_antisymmetric() {
    let a = at(1500, -3000, 4000);
    let b = at(2500, 5000, -1000);
    let fab = pair_force_exec(700, &a, &b);
    let fba = pair_force_exec(700, &b, &a);
    assert_eq!(fab.x, -fba.x);
    assert_eq!(fab.y, -fba.y);
    assert!(fab.x != 0 || fab.y != 0);
}

// In a closed system the accumulated forces cancel exactly.
#[test]
fn gravity_total_force_is_zero() {
    let mut rng = rand::thread_rng();
    let ps = vec![
        at(1000, 0, 0),
        at(2000, 5000, 1000),
        at(3000, -3000, 4000),
        at(4000, 2500, -7000),
    ];
    let grav = ForceStrategy::pairwise_gravity(1000);
    let mut s = sim_with(ps, grav, big_window());
    s.tick(500, &mut rng);
    let mut sx: i64 = 0;
    let mut sy: i64 = 0;
    for p in s.particles.iter() {
        sx += p.accumulated_force.x;
        sy += p.accumulated_force.y;
    }
    assert_eq!(sx, 0);
    assert_eq!(sy, 0);
}

// Coincident particles are skipped instead of dividing by zero.
#[test]
fn coincident_particles_are_guarded() {
    let a = at(1000, 42, -17);
    let b = at(2000, 42, -17);
    let f = pair_force_exec(1000, &a, &b);
    assert_eq!(f, Vec2 { x: 0, y: 0 });
}

// With a terminal speed set, one tick never leaves the velocity magnitude
// above it; the clamp preserves the direction.
#[test]
fn terminal_speed_clamps_velocity() {
    let mut rng = rand::thread_rng();
    let p = at(2000, 0, 0).with_terminal_velocity(Some(5000));
    let field = ForceStrategy::uniform_field(Vec2 { x: 300_000, y: 400_000 });
    let mut s = sim_with(vec![p], field, big_window());
    s.tick(1000, &mut rng);
    let v = s.particles[0].velocity;
    assert_eq!(v, Vec2 { x: 3000, y: 4000 });
    assert!(v.x * v.x + v.y * v.y <= 5000 * 5000);
}

// Respawn policy: after a tick nobody is out of bounds, and a respawned
// particle is at rest.
#[test]
fn respawn_resets_escaped_particles() {
    let mut rng = rand::thread_rng();
    let mut p = at(2000, 999_000, 0);
    p.velocity = Vec2 { x: 2_000_000, y: 0 };
    let field = ForceStrategy::uniform_field(Vec2 { x: 0, y: 0 });
    let mut s = sim_with(vec![p], field, big_window());
    s.set_bounds(OutOfBoundsEffect::Respawn);
    s.tick(1000, &mut rng);
    let q = s.particles[0];
    assert!(q.pos.x.abs() <= 1_000_000 && q.pos.y.abs() <= 1_000_000);
    assert_eq!(q.velocity, Vec2 { x: 0, y: 0 });
    assert_eq!(q.acceleration, Vec2 { x: 0, y: 0 });
    assert_eq!(q.mass, 2000);
}

// Wrap policy: a particle leaving past +x reappears at -x with velocity and
// acceleration unchanged.
#[test]
fn wrap_moves_to_opposite_bound() {
    let mut rng = rand::thread_rng();
    let w = Vec2 { x: 500_000, y: 500_000 };
    let mut p = at(2000, 500_000, 7777);
    p.velocity = Vec2 { x: 1000, y: 0 };
    let field = ForceStrategy::uniform_field(Vec2 { x: 0, y: 0 });
    let mut s = sim_with(vec![p], field, w);
    s.tick(1000, &mut rng);
    let q = s.particles[0];
    assert_eq!(q.pos, Vec2 { x: -500_000, y: 7777 });
    assert_eq!(q.velocity, Vec2 { x: 1000, y: 0 });
    assert_eq!(q.acceleration, Vec2 { x: 0, y: 0 });
}

// The noise field is deterministic: the same seed and position give the same
// sample and the same acceleration, call after call.
#[test]
fn noise_field_is_deterministic() {
    let n1 = sample(42, 12_345, -6789);
    let n2 = sample(42, 12_345, -6789);
    assert_eq!(n1, n2);
    assert_eq!(n1, -368);
    assert!(-SCALE <= n1 && n1 <= SCALE);

    let field = ForceStrategy::noise_field(42, 10_000, 25_000);
    let mut a = at(2000, 12_345, -6789);
    let mut b = at(3000, 12_345, -6789);
    apply_force(&field, &mut a, 16);
    apply_force(&field, &mut b, 700);
    assert_eq!(a.acceleration, b.acceleration);
}

// Different seeds give a different field somewhere.
#[test]
fn noise_seed_matters() {
    let mut differs = false;
    for k in 0..50 {
        let x = k * 777;
        if sample(1, x, -x) != sample(2, x, -x) {
            differs = true;
        }
    }
    assert!(differs);
}

// A zero particle count is a construction error; nothing is built.
#[test]
fn zero_count_fails_construction() {
    let mut rng = rand::thread_rng();
    let r = Particles::new(
        ForceStrategy::pairwise_gravity(1000),
        0,
        (1000, 3000),
        big_window(),
        None,
        vec![0xff00_00ff],
        &mut rng,
    );
    assert_eq!(r.err(), Some(ConfigError::ZeroParticleCount));
}

#[test]
fn inverted_mass_range_fails_construction() {
    let mut rng = rand::thread_rng();
    let r = Particles::new(
        ForceStrategy::pairwise_gravity(1000),
        10,
        (3000, 1000),
        big_window(),
        None,
        vec![0xff00_00ff],
        &mut rng,
    );
    assert_eq!(r.err(), Some(ConfigError::InvertedMassRange));
}

#[test]
fn empty_palette_fails_construction() {
    let mut rng = rand::thread_rng();
    let r = Particles::new(
        ForceStrategy::pairwise_gravity(1000),
        10,
        (1000, 3000),
        big_window(),
        None,
        vec![],
        &mut rng,
    );
    assert_eq!(r.err(), Some(ConfigError::EmptyPalette));
}

// Construction samples every particle inside the bounds, with a mass from the
// range and a color from the palette, at rest.
#[test]
fn construction_spawns_in_bounds() {
    let mut rng = rand::thread_rng();
    let palette: Vec<u32> = vec![0x1d2b_53ff, 0x7e25_53ff, 0x0087_51ff];
    let w = Vec2 { x: 640_000, y: 480_000 };
    let s = Particles::new(
        ForceStrategy::noise_field(7, 10, 25_000),
        200,
        (1000, 3000),
        w,
        Some(25_000),
        palette.clone(),
        &mut rng,
    )
    .unwrap();
    assert_eq!(s.particles.len(), 200);
    for p in s.particles.iter() {
        assert!(1000 <= p.mass && p.mass <= 3000);
        assert!(p.pos.x.abs() <= w.x && p.pos.y.abs() <= w.y);
        assert_eq!(p.velocity, Vec2 { x: 0, y: 0 });
        assert_eq!(p.acceleration, Vec2 { x: 0, y: 0 });
        assert_eq!(p.spring, DEFAULT_SPRING);
        assert_eq!(p.terminal_vel, Some(25_000));
        assert!(palette.contains(&p.color));
    }
}

// A full random simulation stays in bounds over many ticks.
#[test]
fn long_run_stays_in_bounds() {
    let mut rng = rand::thread_rng();
    let w = Vec2 { x: 320_000, y: 240_000 };
    let mut s = Particles::new(
        ForceStrategy::noise_field(99, 10, 25_000),
        100,
        (1000, 3000),
        w,
        Some(25_000),
        vec![0xffff_ffff],
        &mut rng,
    )
    .unwrap()
    .with_trail(10);
    for _ in 0..20 {
        s.tick(16, &mut rng);
        for p in s.particles.iter() {
            assert!(p.pos.x.abs() <= w.x && p.pos.y.abs() <= w.y);
        }
    }
    assert_eq!(s.trail, Some(10));
}

// The snapshot mirrors the collection: position, mass as diameter, color.
#[test]
fn snapshot_mirrors_particles() {
    let a = at(1500, 11, 22).with_color(5);
    let b = at(2500, -33, 44).with_color(9);
    let s = sim_with(
        vec![a, b],
        ForceStrategy::uniform_field(Vec2 { x: 0, y: 0 }),
        big_window(),
    );
    let dots = s.snapshot();
    assert_eq!(dots.len(), 2);
    assert_eq!((dots[0].x, dots[0].y, dots[0].diameter, dots[0].color), (11, 22, 1500, 5));
    assert_eq!((dots[1].x, dots[1].y, dots[1].diameter, dots[1].color), (-33, 44, 2500, 9));
}

// The two integration operations, called directly.
#[test]
fn integrate_velocity_then_position() {
    let mut p = at(2000, 100, 200);
    p.acceleration = Vec2 { x: 500, y: -500 };
    p.calculate_velocity(2000);
    assert_eq!(p.velocity, Vec2 { x: 1000, y: -1000 });
    p.displace(500);
    assert_eq!(p.pos, Vec2 { x: 600, y: -300 });
}
