//! General laws of the simulation, each proved from the same spec functions
//! that the public contracts use.

use vstd::prelude::*;

use vstd::arithmetic::div_mod::lemma_div_basics;
use vstd::arithmetic::div_mod::lemma_div_is_ordered;
use vstd::arithmetic::div_mod::lemma_div_multiples_vanish;
use vstd::arithmetic::div_mod::lemma_div_pos_is_pos;
use vstd::arithmetic::mul::lemma_mul_is_commutative;
use vstd::math::abs;

use crate::fixed::clamped_coord;
use crate::fixed::clamped_force;
use crate::fixed::lemma_sqrt_floor_props;
use crate::fixed::sqrt_floor;
use crate::fixed::COORD_LIMIT;
use crate::fixed::GRAVITY;
use crate::fixed::SCALE;
use crate::sim::flat_upto;
use crate::sim::gen_upto;
use crate::sim::hole_wf;
use crate::sim::holes_pass;
use crate::sim::particle_flat;
use crate::sim::particle_wf;
use crate::sim::pull_axis;
use crate::sim::spec_new_universe;
use crate::sim::star_wf;
use crate::sim::stars_force;
use crate::sim::step_particle;
use crate::sim::tick_particles;
use crate::sim::ticked_upto;
use crate::sim::BlackHole;
use crate::sim::Particle;
use crate::sim::Star;
use crate::sim::UniverseView;
use crate::sim::HOLE_KILL_D2;
use crate::sim::HOLE_SOFTEN_D2;
use crate::sim::KEEP_MIN_X;
use crate::sim::SENTINEL_X;
use crate::sim::STAR_SOFTEN_D2;

verus! {

/// Construction draws exactly `n` particles.
pub proof fn lemma_generated_count(seed: u64, n: nat, width: int, height: int)
    ensures
        gen_upto(seed, n, width, height).0.len() == n,
    decreases n,
{
    if n > 0 {
        lemma_generated_count(seed, (n - 1) as nat, width, height);
    }
}

/// A freshly constructed universe holds exactly the requested number of
/// particles and no massive bodies.
pub proof fn lemma_population_matches_request(
    width: i64,
    height: i64,
    n: nat,
    debug_mode: bool,
    seed: u64,
)
    ensures
        spec_new_universe(width, height, n, debug_mode, seed).particles.len() == n,
        spec_new_universe(width, height, n, debug_mode, seed).stars.len() == 0,
        spec_new_universe(width, height, n, debug_mode, seed).black_holes.len() == 0,
{
    lemma_generated_count(seed, n, width as int, height as int);
}

/// With no particles, a frame leaves the population empty and the snapshot
/// is the empty sequence.
pub proof fn lemma_empty_universe_frame(
    stars: Seq<Star>,
    holes: Seq<BlackHole>,
    width: int,
    height: int,
)
    ensures
        tick_particles(Seq::<Particle>::empty(), stars, holes, width, height)
            == Seq::<Particle>::empty(),
        particle_flat(Seq::<Particle>::empty()) == Seq::<i64>::empty(),
{
}

/// A frame never creates a particle: the population after an update is at
/// most what it was before. (Stars and black holes, dually, are never
/// removed: the append operations say so directly.)
pub proof fn lemma_population_never_grows(
    ps: Seq<Particle>,
    stars: Seq<Star>,
    holes: Seq<BlackHole>,
    width: int,
    height: int,
)
    ensures
        tick_particles(ps, stars, holes, width, height).len() <= ps.len(),
{
    lemma_ticked_upto_len(ps, stars, holes, width, height, ps.len());
}

proof fn lemma_ticked_upto_len(
    ps: Seq<Particle>,
    stars: Seq<Star>,
    holes: Seq<BlackHole>,
    width: int,
    height: int,
    n: nat,
)
    ensures
        ticked_upto(ps, stars, holes, width, height, n).len() <= n,
    decreases n,
{
    if n > 0 {
        lemma_ticked_upto_len(ps, stars, holes, width, height, (n - 1) as nat);
    }
}

/// Construction is deterministic: two universes built from the same inputs
/// and the same seed are the same state.
pub proof fn lemma_construction_deterministic(
    width: i64,
    height: i64,
    n: nat,
    debug_mode: bool,
    seed: u64,
    u1: UniverseView,
    u2: UniverseView,
)
    requires
        u1 == spec_new_universe(width, height, n, debug_mode, seed),
        u2 == spec_new_universe(width, height, n, debug_mode, seed),
    ensures
        u1 == u2,
{
}

/// The debug flag and the generator state feed only the logging decision:
/// two universes that agree on everything else produce the same particles.
pub proof fn lemma_debug_flag_physics_inert(u1: UniverseView, u2: UniverseView)
    requires
        u1.particles == u2.particles,
        u1.stars == u2.stars,
        u1.black_holes == u2.black_holes,
        u1.width == u2.width,
        u1.height == u2.height,
    ensures
        tick_particles(u1.particles, u1.stars, u1.black_holes, u1.width as int, u1.height as int)
            == tick_particles(
            u2.particles,
            u2.stars,
            u2.black_holes,
            u2.width as int,
            u2.height as int,
        ),
{
}

/// Snapshots are idempotent: without an intervening update, two reads of
/// the same population are the same sequence.
pub proof fn lemma_snapshot_idempotent(ps: Seq<Particle>, a: Seq<i64>, b: Seq<i64>)
    requires
        a == particle_flat(ps),
        b == particle_flat(ps),
    ensures
        a == b,
{
}

/// The snapshot is three entries per particle, in collection order:
/// x, then y, then z.
pub proof fn lemma_snapshot_shape(ps: Seq<Particle>, n: nat)
    requires
        n <= ps.len(),
    ensures
        flat_upto(ps, n).len() == 3 * n,
        forall|i: int|
            0 <= i < n ==> flat_upto(ps, n)[3 * i] == (#[trigger] ps[i]).x
                && flat_upto(ps, n)[3 * i + 1] == ps[i].y && flat_upto(ps, n)[3 * i + 2] == ps[i].z,
    decreases n,
{
    if n > 0 {
        lemma_snapshot_shape(ps, (n - 1) as nat);
        let prev = flat_upto(ps, (n - 1) as nat);
        let cur = flat_upto(ps, n);
        let tail = seq![ps[n - 1].x, ps[n - 1].y, ps[n - 1].z];
        assert(cur == prev + tail);
        assert forall|i: int|
            0 <= i < n implies cur[3 * i] == (#[trigger] ps[i]).x && cur[3 * i + 1] == ps[i].y
            && cur[3 * i + 2] == ps[i].z by {
            if i < n - 1 {
                assert(cur[3 * i] == prev[3 * i]);
                assert(cur[3 * i + 1] == prev[3 * i + 1]);
                assert(cur[3 * i + 2] == prev[3 * i + 2]);
            } else {
                assert(cur[3 * i] == tail[0]);
                assert(cur[3 * i + 1] == tail[1]);
                assert(cur[3 * i + 2] == tail[2]);
            }
        }
    }
}

/// A single body's axis force is bounded well inside the force cap, points
/// at the body exactly when the mass is non-negative, and vanishes on an
/// axis with no offset.
pub proof fn lemma_pull_axis_bound(m: int, delta: int, d2: int)
    requires
        -COORD_LIMIT <= m <= COORD_LIMIT,
        delta * delta <= d2,
        d2 > STAR_SOFTEN_D2,
    ensures
        abs(pull_axis(m, delta, d2)) <= 100_000_000_000,
        delta == 0 ==> pull_axis(m, delta, d2) == 0,
        (m >= 0) == (delta >= 0) ==> pull_axis(m, delta, d2) >= 0,
        (m >= 0) != (delta >= 0) ==> pull_axis(m, delta, d2) <= 0,
        GRAVITY * abs(m) * abs(delta) * SCALE >= d2 * (sqrt_floor(d2 as nat) as int)
            ==> abs(pull_axis(m, delta, d2)) >= 1,
{
    let sq = sqrt_floor(d2 as nat) as int;
    lemma_sqrt_floor_props(d2 as nat);
    if sq == 0 {
        assert((sqrt_floor(d2 as nat) + 1) * (sqrt_floor(d2 as nat) + 1) == 1) by (nonlinear_arith)
            requires
                sqrt_floor(d2 as nat) == 0,
        ;
        assert(false);
    }
    let ad: int = abs(delta) as int;
    if delta >= 0 {
        assert(ad == delta);
    } else {
        assert(ad == -delta);
        assert(ad * ad == delta * delta) by (nonlinear_arith)
            requires
                ad == -delta,
        ;
    }
    if ad > sq {
        assert(ad * ad >= (sq + 1) * (sq + 1)) by (nonlinear_arith)
            requires
                ad >= sq + 1,
                sq + 1 >= 1,
        ;
        assert(false);
    }
    let num = GRAVITY * abs(m) * ad * SCALE;
    let den = d2 * sq;
    assert(GRAVITY == 100_000i64);
    assert(SCALE == 1_000_000i64);
    assert(0 <= num <= 1_000_000_000_000_000_000_000_000 * sq) by (nonlinear_arith)
        requires
            num == 100_000 * abs(m) * ad * 1_000_000,
            0 <= abs(m) <= 10_000_000_000_000int,
            0 <= ad <= sq,
    ;
    assert(den >= d2) by (nonlinear_arith)
        requires
            den == d2 * sq,
            d2 >= 0,
            sq >= 1,
    ;
    assert(1_000_000_000_000_000_000_000_000 * sq <= 100_000_000_000 * den) by (nonlinear_arith)
        requires
            den == d2 * sq,
            d2 >= 10_000_000_000_001int,
            sq >= 1,
    ;
    lemma_div_pos_is_pos(num, den);
    lemma_div_is_ordered(num, 100_000_000_000 * den, den);
    lemma_mul_is_commutative(100_000_000_000, den);
    lemma_div_multiples_vanish(100_000_000_000, den);
    assert(num / den <= 100_000_000_000);
    if delta == 0 {
        assert(num == 0) by (nonlinear_arith)
            requires
                num == 100_000 * abs(m) * ad * 1_000_000,
                ad == 0,
        ;
        lemma_div_basics(den);
    }
    if num >= den {
        lemma_div_is_ordered(den, num, den);
        lemma_div_basics(den);
        assert(num / den >= 1);
    }
}

/// Attraction: past the softening distance, a star with positive mass pulls
/// the particle toward itself on each axis during one frame. The statement
/// excludes the inputs on which the effect genuinely vanishes or is masked:
/// an axis force that rounds to zero in fixed point, a velocity already at
/// the representational limit, and a frame that ends outside the world
/// bounds (where reflection negates the velocity afterwards).
pub proof fn lemma_star_attraction(p: Particle, s: Star, width: int, height: int)
    requires
        particle_wf(p),
        star_wf(s),
        s.mass > 0,
        (s.x - p.x) * (s.x - p.x) + (s.y - p.y) * (s.y - p.y) > STAR_SOFTEN_D2,
        -COORD_LIMIT < p.vx < COORD_LIMIT,
        -COORD_LIMIT < p.vy < COORD_LIMIT,
        s.x != p.x ==> GRAVITY * (s.mass as int) * abs(s.x - p.x) * SCALE >= ({
            let d2 = (s.x - p.x) * (s.x - p.x) + (s.y - p.y) * (s.y - p.y);
            d2 * (sqrt_floor(d2 as nat) as int)
        }),
        s.y != p.y ==> GRAVITY * (s.mass as int) * abs(s.y - p.y) * SCALE >= ({
            let d2 = (s.x - p.x) * (s.x - p.x) + (s.y - p.y) * (s.y - p.y);
            d2 * (sqrt_floor(d2 as nat) as int)
        }),
        0 <= step_particle(p, seq![s], Seq::<BlackHole>::empty(), width, height).x <= width,
        0 <= step_particle(p, seq![s], Seq::<BlackHole>::empty(), width, height).y <= height,
    ensures
        ({
            let q = step_particle(p, seq![s], Seq::<BlackHole>::empty(), width, height);
            &&& (s.x > p.x ==> q.vx > p.vx)
            &&& (s.x < p.x ==> q.vx < p.vx)
            &&& (s.x == p.x ==> q.vx == p.vx)
            &&& (s.y > p.y ==> q.vy > p.vy)
            &&& (s.y < p.y ==> q.vy < p.vy)
            &&& (s.y == p.y ==> q.vy == p.vy)
        }),
{
    let stars = seq![s];
    let holes = Seq::<BlackHole>::empty();
    let dx = s.x - p.x;
    let dy = s.y - p.y;
    let d2 = dx * dx + dy * dy;
    assert(stars[0] == s);
    assert(stars_force(p, stars, 0) == (0int, 0int));
    assert(dx * dx >= 0 && dy * dy >= 0) by (nonlinear_arith);
    let cx = pull_axis(s.mass as int, dx, d2);
    let cy = pull_axis(s.mass as int, dy, d2);
    lemma_pull_axis_bound(s.mass as int, dx, d2);
    lemma_pull_axis_bound(s.mass as int, dy, d2);
    assert(-100_000_000_000 <= cx <= 100_000_000_000);
    assert(-100_000_000_000 <= cy <= 100_000_000_000);
    let sf = stars_force(p, stars, 1);
    assert(sf == (clamped_force(0 + cx), clamped_force(0 + cy)));
    assert(sf == (cx, cy));
    let hp = holes_pass(p.x as int, p.y as int, holes, cx, cy, 0);
    assert(hp == (cx, cy, p.x as int));
    let vx = clamped_coord(p.vx + cx);
    let vy = clamped_coord(p.vy + cy);
    let q = step_particle(p, stars, holes, width, height);
    let x = clamped_coord(hp.2 + vx);
    let y = clamped_coord(p.y + vy);
    assert(q.x == x && q.y == y);
    assert(!(x < 0 || x > width));
    assert(!(y < 0 || y > height));
    assert(q.vx == vx && q.vy == vy);
    if dx > 0 {
        assert(cx >= 1);
    } else if dx < 0 {
        assert(cx <= -1);
    } else {
        assert(cx == 0);
    }
    if dy > 0 {
        assert(cy >= 1);
    } else if dy < 0 {
        assert(cy <= -1);
    } else {
        assert(cy == 0);
    }
}

/// At or below the softening distance (and with no other body present) a
/// star changes the particle's velocity not at all, as long as the frame
/// ends inside the world bounds so that no reflection intervenes.
pub proof fn lemma_star_softened(p: Particle, s: Star, width: int, height: int)
    requires
        particle_wf(p),
        star_wf(s),
        (s.x - p.x) * (s.x - p.x) + (s.y - p.y) * (s.y - p.y) <= STAR_SOFTEN_D2,
        0 <= step_particle(p, seq![s], Seq::<BlackHole>::empty(), width, height).x <= width,
        0 <= step_particle(p, seq![s], Seq::<BlackHole>::empty(), width, height).y <= height,
    ensures
        step_particle(p, seq![s], Seq::<BlackHole>::empty(), width, height).vx == p.vx,
        step_particle(p, seq![s], Seq::<BlackHole>::empty(), width, height).vy == p.vy,
{
    let stars = seq![s];
    let holes = Seq::<BlackHole>::empty();
    assert(stars[0] == s);
    assert(stars_force(p, stars, 0) == (0int, 0int));
    let sf = stars_force(p, stars, 1);
    assert(sf == (0int, 0int));
    let hp = holes_pass(p.x as int, p.y as int, holes, 0, 0, 0);
    assert(hp == (0int, 0int, p.x as int));
    let q = step_particle(p, stars, holes, width, height);
    let vx = clamped_coord(p.vx + 0);
    assert(vx == p.vx);
    let vy = clamped_coord(p.vy + 0);
    assert(vy == p.vy);
    let x = clamped_coord(p.x + vx);
    let y = clamped_coord(p.y + vy);
    assert(q.x == x && q.y == y);
    assert(!(x < 0 || x > width));
    assert(!(y < 0 || y > height));
}

/// Removal: a particle closer than one world unit to a black hole is marked
/// with the sentinel x, still has its velocity applied to the sentinel, and
/// survives the end-of-frame filter exactly when the resulting x lies
/// strictly right of the cutoff.
pub proof fn lemma_black_hole_capture(p: Particle, b: BlackHole, width: int, height: int)
    requires
        particle_wf(p),
        hole_wf(b),
        (b.x - p.x) * (b.x - p.x) + (b.y - p.y) * (b.y - p.y) < HOLE_KILL_D2,
    ensures
        ({
            let q = step_particle(p, Seq::<Star>::empty(), seq![b], width, height);
            &&& q.x == clamped_coord(SENTINEL_X + p.vx)
            &&& tick_particles(seq![p], Seq::<Star>::empty(), seq![b], width, height) == (
            if q.x > KEEP_MIN_X {
                seq![q]
            } else {
                Seq::<Particle>::empty()
            })
        }),
{
    let stars = Seq::<Star>::empty();
    let holes = seq![b];
    assert(holes[0] == b);
    assert(stars_force(p, stars, 0) == (0int, 0int));
    let dx = b.x - p.x;
    let dy = b.y - p.y;
    let d2 = dx * dx + dy * dy;
    assert(dx * dx >= 0 && dy * dy >= 0) by (nonlinear_arith);
    assert(!(d2 > HOLE_SOFTEN_D2));
    assert(holes_pass(p.x as int, p.y as int, holes, 0, 0, 0) == (0int, 0int, p.x as int));
    let hp = holes_pass(p.x as int, p.y as int, holes, 0, 0, 1);
    assert(hp == (0int, 0int, SENTINEL_X as int));
    let q = step_particle(p, stars, holes, width, height);
    let vx = clamped_coord(p.vx + 0);
    assert(vx == p.vx);
    assert(q.x == clamped_coord(SENTINEL_X + p.vx));
    let ps = seq![p];
    assert(ps[0] == p);
    assert(ticked_upto(ps, stars, holes, width, height, 0) == Seq::<Particle>::empty());
    assert(tick_particles(ps, stars, holes, width, height) == ticked_upto(
        ps,
        stars,
        holes,
        width,
        height,
        1,
    ));
}

/// Reflection: with no body in play, a particle whose move carries it past
/// the right-hand bound keeps the out-of-bounds position for the frame and
/// has its x-velocity negated.
pub proof fn lemma_boundary_reflection(p: Particle, width: int, height: int)
    requires
        particle_wf(p),
        0 < width <= COORD_LIMIT,
        0 < height <= COORD_LIMIT,
        p.x + p.vx > width,
        p.x + p.vx <= COORD_LIMIT,
        0 <= p.y + p.vy <= height,
    ensures
        ({
            let q = step_particle(p, Seq::<Star>::empty(), Seq::<BlackHole>::empty(), width, height);
            &&& q.x == p.x + p.vx
            &&& q.x > width
            &&& q.vx == -p.vx
            &&& q.y == p.y + p.vy
            &&& q.vy == p.vy
        }),
{
    let stars = Seq::<Star>::empty();
    let holes = Seq::<BlackHole>::empty();
    assert(stars_force(p, stars, 0) == (0int, 0int));
    assert(holes_pass(p.x as int, p.y as int, holes, 0, 0, 0) == (0int, 0int, p.x as int));
    let q = step_particle(p, stars, holes, width, height);
    let vx = clamped_coord(p.vx + 0);
    assert(vx == p.vx);
    let vy = clamped_coord(p.vy + 0);
    assert(vy == p.vy);
    let x = clamped_coord(p.x + p.vx);
    assert(x == p.x + p.vx);
    let y = clamped_coord(p.y + p.vy);
    assert(y == p.y + p.vy);
    assert(q.x == x && q.y == y);
    assert(x > width);
    assert(!(y < 0 || y > height));
    assert(q.vx == -vx);
    assert(q.vy == vy);
}

} // verus!
