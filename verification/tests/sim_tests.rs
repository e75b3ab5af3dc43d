//! End-to-end tests of the simulation through its public surface.
//! All coordinates are fixed point: 1_000_000 units per world unit.

use physics::fixed::SCALE;
use physics::Particle;
use physics::Universe;

const W: i64 = 100 * SCALE;
const H: i64 = 100 * SCALE;

fn snapshot(u: &Universe) -> Vec<i64> {
    u.get_particles_data()
}

#[test]
fn construction_count_matches_request() {
    let u = Universe::new(W, H, 500, false, 7);
    assert_eq!(u.particle_count(), 500);
    assert_eq!(snapshot(&u).len(), 1500);
}

#[test]
fn negative_count_clamps_to_zero() {
    let u = Universe::new(W, H, -5, false, 7);
    assert_eq!(u.particle_count(), 0);
    assert!(snapshot(&u).is_empty());
}

#[test]
fn empty_universe_update_is_noop() {
    let mut u = Universe::new(W, H, 0, false, 3);
    assert_eq!(u.tick(), None);
    assert_eq!(u.particle_count(), 0);
    assert!(snapshot(&u).is_empty());
}

#[test]
fn construction_is_deterministic() {
    let a = Universe::new(W, H, 64, false, 42);
    let b = Universe::new(W, H, 64, false, 42);
    assert_eq!(snapshot(&a), snapshot(&b));
    // The first particle drawn from seed 42 over a 100 x 100 world.
    let c = Universe::new(W, H, 1, false, 42);
    assert_eq!(snapshot(&c), vec![20_546_993, 80_167_020, 512_075]);
}

#[test]
fn initial_positions_lie_inside_bounds() {
    let u = Universe::new(W, H, 200, false, 99);
    let data = snapshot(&u);
    for triple in data.chunks(3) {
        assert!(0 <= triple[0] && triple[0] < W);
        assert!(0 <= triple[1] && triple[1] < H);
        assert!(0 <= triple[2] && triple[2] < SCALE);
    }
}

#[test]
fn star_attracts_exact_one_frame() {
    // One particle at (10, 50) at rest; one star at (50, 50) of mass 1000.
    // dx = 40, d2 = 1600 > 10; force = 0.1 * 1000 / 1600 = 0.0625 along x.
    let p = Particle::new(10 * SCALE, 50 * SCALE, 123, 0, 0);
    let mut u = Universe::with_particles(W, H, vec![p], false, 0);
    u.add_star(50 * SCALE, 50 * SCALE, 1000 * SCALE);
    assert_eq!(u.tick(), None);
    assert_eq!(snapshot(&u), vec![10_062_500, 50_000_000, 123]);
}

#[test]
fn star_attracts_exact_two_frames() {
    let p = Particle::new(10 * SCALE, 50 * SCALE, 0, 0, 0);
    let mut u = Universe::with_particles(W, H, vec![p], false, 0);
    u.add_star(50 * SCALE, 50 * SCALE, 1000 * SCALE);
    u.tick();
    u.tick();
    assert_eq!(snapshot(&u), vec![10_187_695, 50_000_000, 0]);
}

#[test]
fn negative_mass_repels() {
    let p = Particle::new(10 * SCALE, 50 * SCALE, 0, 0, 0);
    let mut u = Universe::with_particles(W, H, vec![p], false, 0);
    u.add_star(50 * SCALE, 50 * SCALE, -1000 * SCALE);
    u.tick();
    assert_eq!(snapshot(&u), vec![9_937_500, 50_000_000, 0]);
}

#[test]
fn zero_mass_star_exerts_nothing() {
    let p = Particle::new(10 * SCALE, 50 * SCALE, 0, 0, 0);
    let mut u = Universe::with_particles(W, H, vec![p], false, 0);
    u.add_star(50 * SCALE, 50 * SCALE, 0);
    u.tick();
    assert_eq!(snapshot(&u), vec![10_000_000, 50_000_000, 0]);
}

#[test]
fn star_inside_softening_distance_is_inert() {
    // dx = 2 world units, d2 = 4 <= 10: no force at all.
    let p = Particle::new(10 * SCALE, 50 * SCALE, 0, 0, 0);
    let mut u = Universe::with_particles(W, H, vec![p], false, 0);
    u.add_star(12 * SCALE, 50 * SCALE, 1000 * SCALE);
    u.tick();
    assert_eq!(snapshot(&u), vec![10_000_000, 50_000_000, 0]);
}

#[test]
fn black_hole_gap_band_is_inert() {
    // dx = 3 world units: d2 = 9 lies in the [1, 25] gap, so the hole
    // neither attracts nor marks.
    let p = Particle::new(10 * SCALE, 50 * SCALE, 0, 0, 0);
    let mut u = Universe::with_particles(W, H, vec![p], false, 0);
    u.add_black_hole(13 * SCALE, 50 * SCALE, 1000 * SCALE);
    u.tick();
    assert_eq!(snapshot(&u), vec![10_000_000, 50_000_000, 0]);
}

#[test]
fn black_hole_attracts_past_gap() {
    // dx = 40 world units: d2 = 1600 > 25, same force law as a star.
    let p = Particle::new(10 * SCALE, 50 * SCALE, 0, 0, 0);
    let mut u = Universe::with_particles(W, H, vec![p], false, 0);
    u.add_black_hole(50 * SCALE, 50 * SCALE, 1000 * SCALE);
    u.tick();
    assert_eq!(snapshot(&u), vec![10_062_500, 50_000_000, 0]);
}

#[test]
fn black_hole_capture_removes_resting_particle() {
    // Half a world unit away: d2 = 0.25 < 1, the particle is marked, its
    // zero velocity leaves it at the sentinel, and the filter drops it.
    let p = Particle::new(10 * SCALE, 50 * SCALE, 0, 0, 0);
    let mut u = Universe::with_particles(W, H, vec![p], false, 0);
    u.add_black_hole(10 * SCALE + SCALE / 2, 50 * SCALE, 1000 * SCALE);
    u.tick();
    assert_eq!(u.particle_count(), 0);
    assert!(snapshot(&u).is_empty());
}

#[test]
fn black_hole_capture_velocity_can_outrun_filter() {
    // Marked at x = -100, then the frame's own velocity of +60 world units
    // moves it to -40, strictly right of the -50 cutoff: it survives.
    let fast = Particle::new(10 * SCALE, 50 * SCALE, 7, 60 * SCALE, 0);
    let mut u = Universe::with_particles(W, H, vec![fast], false, 0);
    u.add_black_hole(10 * SCALE + SCALE / 2, 50 * SCALE, 1000 * SCALE);
    u.tick();
    assert_eq!(u.particle_count(), 1);
    assert_eq!(snapshot(&u)[0], -40 * SCALE);
}

#[test]
fn black_hole_capture_filter_boundary_is_strict() {
    // With exactly +50 world units of velocity the particle lands on the
    // cutoff itself, and the strict filter removes it.
    let edge = Particle::new(10 * SCALE, 50 * SCALE, 0, 50 * SCALE, 0);
    let mut u = Universe::with_particles(W, H, vec![edge], false, 0);
    u.add_black_hole(10 * SCALE + SCALE / 2, 50 * SCALE, 1000 * SCALE);
    u.tick();
    assert_eq!(u.particle_count(), 0);
}

#[test]
fn boundary_reflection_negates_velocity_without_clamping() {
    // x = width - 0.01, vx = +0.02: the frame ends at width + 0.01, outside
    // the world but not clamped back; the velocity flips for the next frame.
    let p = Particle::new(W - 10_000, 50 * SCALE, 0, 20_000, 0);
    let mut u = Universe::with_particles(W, H, vec![p], false, 0);
    u.tick();
    assert_eq!(snapshot(&u), vec![W + 10_000, 50 * SCALE, 0]);
    u.tick();
    assert_eq!(snapshot(&u), vec![W - 10_000, 50 * SCALE, 0]);
}

#[test]
fn snapshot_is_idempotent() {
    let mut u = Universe::new(W, H, 32, false, 5);
    u.add_star(50 * SCALE, 50 * SCALE, 1000 * SCALE);
    u.tick();
    assert_eq!(snapshot(&u), snapshot(&u));
}

#[test]
fn debug_log_draw_controls_report() {
    // rng_next(21) is divisible by 100: the debug draw asks for a log line.
    let mut logging = Universe::with_particles(W, H, Vec::new(), true, 21);
    assert_eq!(logging.tick(), Some(0));
    // rng_next(1) is not divisible by 100: no log line.
    let mut silent = Universe::with_particles(W, H, Vec::new(), true, 1);
    assert_eq!(silent.tick(), None);
    // Without debug mode no draw is made at all.
    let mut plain = Universe::with_particles(W, H, Vec::new(), false, 21);
    assert_eq!(plain.tick(), None);
}

#[test]
fn debug_flag_leaves_physics_alone() {
    let p = Particle::new(10 * SCALE, 50 * SCALE, 0, 0, 0);
    let mut a = Universe::with_particles(W, H, vec![p], false, 21);
    let mut b = Universe::with_particles(W, H, vec![p], true, 21);
    a.add_star(50 * SCALE, 50 * SCALE, 1000 * SCALE);
    b.add_star(50 * SCALE, 50 * SCALE, 1000 * SCALE);
    a.tick();
    b.tick();
    assert_eq!(snapshot(&a), snapshot(&b));
}

#[test]
fn snapshot_preserves_collection_order() {
    let a = Particle::new(1 * SCALE, 2 * SCALE, 3, 0, 0);
    let b = Particle::new(4 * SCALE, 5 * SCALE, 6, 0, 0);
    let u = Universe::with_particles(W, H, vec![a, b], false, 0);
    assert_eq!(
        snapshot(&u),
        vec![1 * SCALE, 2 * SCALE, 3, 4 * SCALE, 5 * SCALE, 6]
    );
}

#[test]
fn bodies_accumulate_forces() {
    // Two equal stars placed symmetrically left and right: forces cancel.
    let p = Particle::new(50 * SCALE, 50 * SCALE, 0, 0, 0);
    let mut u = Universe::with_particles(W, H, vec![p], false, 0);
    u.add_star(10 * SCALE, 50 * SCALE, 1000 * SCALE);
    u.add_star(90 * SCALE, 50 * SCALE, 1000 * SCALE);
    u.tick();
    assert_eq!(snapshot(&u), vec![50 * SCALE, 50 * SCALE, 0]);
}
