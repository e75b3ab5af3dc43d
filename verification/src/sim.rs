//! The simulation state and its per-frame update.
//!
//! A [`Universe`] owns a population of dust particles together with the
//! stars and black holes that attract them. Each frame the host calls
//! [`Universe::tick`], which accumulates inverse-square forces on every
//! particle, integrates semi-implicitly, reflects velocities at the world
//! boundary, and finally drops the particles that black holes have pulled
//! past the removal cutoff.

use vstd::prelude::*;

use vstd::arithmetic::div_mod::lemma_div_basics;
use vstd::arithmetic::div_mod::lemma_div_denominator;
use vstd::arithmetic::div_mod::lemma_div_is_ordered_by_denominator;
use vstd::math::abs;

use crate::fixed::clamp_coord;
use crate::fixed::clamp_force;
use crate::fixed::clamped_coord;
use crate::fixed::clamped_force;
use crate::fixed::isqrt;
use crate::fixed::lemma_sqrt_floor_props;
use crate::fixed::sqrt_floor;
use crate::fixed::COORD_LIMIT;
use crate::fixed::FORCE_LIMIT;
use crate::fixed::GRAVITY;
use crate::fixed::PULL_LIMIT;
use crate::fixed::SCALE;
use crate::rng::Rng;

verus! {

/// Squared-distance softening threshold for stars: 10 square world units.
/// At or below it a star exerts no force.
pub const STAR_SOFTEN_D2: u128 = 10_000_000_000_000;

/// Squared-distance softening threshold for black holes: 25 square world
/// units. Distances squared in [1, 25] world units contribute neither force
/// nor removal; that gap is deliberate.
pub const HOLE_SOFTEN_D2: u128 = 25_000_000_000_000;

/// Below one square world unit of a black hole a particle is marked for
/// removal.
pub const HOLE_KILL_D2: u128 = 1_000_000_000_000;

/// Sentinel x-coordinate given to a particle that strays too close to a
/// black hole: one hundred world units to the left of the origin.
pub const SENTINEL_X: i64 = -100_000_000;

/// Particles whose x-coordinate ends a frame at or below this cutoff
/// (fifty world units left of the origin) are removed.
pub const KEEP_MIN_X: i64 = -50_000_000;

/// A massless dust particle: position, parallax depth `z`, and velocity.
/// `z` and `vz` are carried for the renderer and never enter the physics.
#[derive(Clone, Copy, PartialEq, Eq, Structural, Debug)]
pub struct Particle {
    pub x: i64,
    pub y: i64,
    pub z: i64,
    pub vx: i64,
    pub vy: i64,
    pub vz: i64,
}

/// A star: position and mass, plus an age counter and ignition flag that
/// the simulation carries but never reads.
#[derive(Clone, Copy, PartialEq, Eq, Structural, Debug)]
pub struct Star {
    pub x: i64,
    pub y: i64,
    pub mass: i64,
    pub age: u32,
    pub is_ignited: bool,
}

/// A black hole: position and mass.
#[derive(Clone, Copy, PartialEq, Eq, Structural, Debug)]
pub struct BlackHole {
    pub x: i64,
    pub y: i64,
    pub mass: i64,
}

/// The fields a particle feeds into the force and boundary arithmetic stay
/// inside the representable coordinate range.
pub open spec fn particle_wf(p: Particle) -> bool {
    &&& -COORD_LIMIT <= p.x <= COORD_LIMIT
    &&& -COORD_LIMIT <= p.y <= COORD_LIMIT
    &&& -COORD_LIMIT <= p.vx <= COORD_LIMIT
    &&& -COORD_LIMIT <= p.vy <= COORD_LIMIT
}

pub open spec fn star_wf(s: Star) -> bool {
    &&& -COORD_LIMIT <= s.x <= COORD_LIMIT
    &&& -COORD_LIMIT <= s.y <= COORD_LIMIT
    &&& -COORD_LIMIT <= s.mass <= COORD_LIMIT
}

pub open spec fn hole_wf(b: BlackHole) -> bool {
    &&& -COORD_LIMIT <= b.x <= COORD_LIMIT
    &&& -COORD_LIMIT <= b.y <= COORD_LIMIT
    &&& -COORD_LIMIT <= b.mass <= COORD_LIMIT
}

/// Force exerted along one axis by a body of mass `m` at signed offset
/// `delta` from the particle, at squared distance `d2` (all fixed point):
/// the inverse-square magnitude `GRAVITY * |m| / d2`, projected on the axis
/// by `|delta| / sqrt(d2)`, rescaled into fixed point, rounded toward zero,
/// and pointed at the body (or away from it for a negative mass).
pub open spec fn pull_axis(m: int, delta: int, d2: int) -> int {
    let mag = (GRAVITY * abs(m) * abs(delta) * SCALE) / (d2 * (sqrt_floor(d2 as nat) as int));
    if (m >= 0) == (delta >= 0) {
        mag
    } else {
        -mag
    }
}

/// Force accumulated on particle `p` by the first `n` stars, each capped
/// into the force range. A star at squared distance `STAR_SOFTEN_D2` or
/// closer contributes nothing.
pub open spec fn stars_force(p: Particle, stars: Seq<Star>, n: nat) -> (int, int)
    decreases n,
{
    if n == 0 {
        (0, 0)
    } else {
        let t = stars_force(p, stars, (n - 1) as nat);
        let s = stars[n - 1];
        let dx = s.x - p.x;
        let dy = s.y - p.y;
        let d2 = dx * dx + dy * dy;
        if d2 > STAR_SOFTEN_D2 {
            (
                clamped_force(t.0 + pull_axis(s.mass as int, dx, d2)),
                clamped_force(t.1 + pull_axis(s.mass as int, dy, d2)),
            )
        } else {
            t
        }
    }
}

/// Pass of the first `n` black holes over a particle that sits at
/// (`px0`, `py`) with force (`fx0`, `fy0`) already accumulated; yields
/// (fx, fy, px). A hole beyond `HOLE_SOFTEN_D2` attracts; one closer than
/// `HOLE_KILL_D2` overwrites the x-coordinate with `SENTINEL_X`, which the
/// holes later in the pass then see.
pub open spec fn holes_pass(
    px0: int,
    py: int,
    holes: Seq<BlackHole>,
    fx0: int,
    fy0: int,
    n: nat,
) -> (int, int, int)
    decreases n,
{
    if n == 0 {
        (fx0, fy0, px0)
    } else {
        let t = holes_pass(px0, py, holes, fx0, fy0, (n - 1) as nat);
        let b = holes[n - 1];
        let dx = b.x - t.2;
        let dy = b.y - py;
        let d2 = dx * dx + dy * dy;
        if d2 > HOLE_SOFTEN_D2 {
            (
                clamped_force(t.0 + pull_axis(b.mass as int, dx, d2)),
                clamped_force(t.1 + pull_axis(b.mass as int, dy, d2)),
                t.2,
            )
        } else if d2 < HOLE_KILL_D2 {
            (t.0, t.1, SENTINEL_X as int)
        } else {
            t
        }
    }
}

/// One frame of one particle: star forces, black-hole forces and marking,
/// semi-implicit Euler integration (velocity first, then position, both
/// clamped into the representable range), and boundary reflection, which
/// negates a velocity component when the new position lies outside
/// [0, width] x [0, height] but leaves the position itself untouched.
pub open spec fn step_particle(
    p: Particle,
    stars: Seq<Star>,
    holes: Seq<BlackHole>,
    width: int,
    height: int,
) -> Particle {
    let sf = stars_force(p, stars, stars.len());
    let hp = holes_pass(p.x as int, p.y as int, holes, sf.0, sf.1, holes.len());
    let vx = clamped_coord(p.vx + hp.0);
    let vy = clamped_coord(p.vy + hp.1);
    let x = clamped_coord(hp.2 + vx);
    let y = clamped_coord(p.y + vy);
    let vx2 = if x < 0 || x > width {
        -vx
    } else {
        vx
    };
    let vy2 = if y < 0 || y > height {
        -vy
    } else {
        vy
    };
    Particle { x: x as i64, y: y as i64, z: p.z, vx: vx2 as i64, vy: vy2 as i64, vz: p.vz }
}

/// The first `n` particles after one frame: each is stepped, and only those
/// that end the frame strictly right of `KEEP_MIN_X` are kept, in order.
pub open spec fn ticked_upto(
    ps: Seq<Particle>,
    stars: Seq<Star>,
    holes: Seq<BlackHole>,
    width: int,
    height: int,
    n: nat,
) -> Seq<Particle>
    decreases n,
{
    if n == 0 {
        Seq::empty()
    } else {
        let prev = ticked_upto(ps, stars, holes, width, height, (n - 1) as nat);
        let q = step_particle(ps[n - 1], stars, holes, width, height);
        if q.x > KEEP_MIN_X {
            prev.push(q)
        } else {
            prev
        }
    }
}

/// The whole particle population after one frame.
pub open spec fn tick_particles(
    ps: Seq<Particle>,
    stars: Seq<Star>,
    holes: Seq<BlackHole>,
    width: int,
    height: int,
) -> Seq<Particle> {
    ticked_upto(ps, stars, holes, width, height, ps.len())
}

/// Bound on an initial velocity component: a tenth of a world unit per
/// frame. Construction draws velocities uniformly from [-0.1, 0.1).
pub const INIT_VEL_LIMIT: i64 = 100_000;

/// One freshly drawn particle and the generator state after the five draws
/// that produced it: position uniform over [0, width) x [0, height), depth
/// uniform over [0, 1), velocity components uniform over [-0.1, 0.1) world
/// units, vertical velocity zero.
pub open spec fn gen_particle(s0: u64, width: int, height: int) -> (Particle, u64) {
    let s1 = crate::rng::rng_next(s0);
    let s2 = crate::rng::rng_next(s1);
    let s3 = crate::rng::rng_next(s2);
    let s4 = crate::rng::rng_next(s3);
    let s5 = crate::rng::rng_next(s4);
    let x = (s1 as int) % width;
    let y = (s2 as int) % height;
    let z = (s3 as int) % (SCALE as int);
    let vx = (s4 as int) % (2 * (INIT_VEL_LIMIT as int)) - INIT_VEL_LIMIT;
    let vy = (s5 as int) % (2 * (INIT_VEL_LIMIT as int)) - INIT_VEL_LIMIT;
    (Particle { x: x as i64, y: y as i64, z: z as i64, vx: vx as i64, vy: vy as i64, vz: 0 }, s5)
}

/// The first `n` particles drawn from `seed`, and the generator state left
/// behind.
pub open spec fn gen_upto(seed: u64, n: nat, width: int, height: int) -> (Seq<Particle>, u64)
    decreases n,
{
    if n == 0 {
        (Seq::empty(), seed)
    } else {
        let t = gen_upto(seed, (n - 1) as nat, width, height);
        let g = gen_particle(t.1, width, height);
        (t.0.push(g.0), g.1)
    }
}

/// The state of a freshly constructed universe: `n` drawn particles, no
/// stars, no black holes. Construction is a pure function of its inputs.
pub open spec fn spec_new_universe(
    width: i64,
    height: i64,
    n: nat,
    debug_mode: bool,
    seed: u64,
) -> UniverseView {
    let g = gen_upto(seed, n, width as int, height as int);
    UniverseView {
        width,
        height,
        particles: g.0,
        stars: Seq::empty(),
        black_holes: Seq::empty(),
        debug_mode,
        rng_state: g.1,
    }
}

/// The mathematical state of a universe.
pub ghost struct UniverseView {
    pub width: i64,
    pub height: i64,
    pub particles: Seq<Particle>,
    pub stars: Seq<Star>,
    pub black_holes: Seq<BlackHole>,
    pub debug_mode: bool,
    pub rng_state: u64,
}

impl UniverseView {
    /// Well-formedness: positive bounds and every stored record inside the
    /// representable range.
    pub open spec fn wf(self) -> bool {
        &&& 0 < self.width <= COORD_LIMIT
        &&& 0 < self.height <= COORD_LIMIT
        &&& forall|i: int|
            0 <= i < self.particles.len() ==> particle_wf(#[trigger] self.particles[i])
        &&& forall|i: int| 0 <= i < self.stars.len() ==> star_wf(#[trigger] self.stars[i])
        &&& forall|i: int|
            0 <= i < self.black_holes.len() ==> hole_wf(#[trigger] self.black_holes[i])
    }
}

/// The simulation state container.
pub struct Universe {
    width: i64,
    height: i64,
    particles: Vec<Particle>,
    stars: Vec<Star>,
    black_holes: Vec<BlackHole>,
    debug_mode: bool,
    rng: Rng,
}

impl View for Universe {
    type V = UniverseView;

    closed spec fn view(&self) -> UniverseView {
        UniverseView {
            width: self.width,
            height: self.height,
            particles: self.particles@,
            stars: self.stars@,
            black_holes: self.black_holes@,
            debug_mode: self.debug_mode,
            rng_state: self.rng.state,
        }
    }
}

/// The flat render buffer for a particle population: three numbers (x, y, z)
/// per particle, in collection order.
pub open spec fn flat_upto(ps: Seq<Particle>, n: nat) -> Seq<i64>
    decreases n,
{
    if n == 0 {
        Seq::empty()
    } else {
        flat_upto(ps, (n - 1) as nat) + seq![ps[n - 1].x, ps[n - 1].y, ps[n - 1].z]
    }
}

pub open spec fn particle_flat(ps: Seq<Particle>) -> Seq<i64> {
    flat_upto(ps, ps.len())
}

/// Exact fixed-point evaluation of [`pull_axis`]: the numerator
/// `GRAVITY * |m| * |delta| * SCALE` stays below 2 * 10^37, so it fits in a
/// `u128`, and dividing by `sqrt(d2)` first and `d2` second equals the
/// single division by their product.
fn axis_pull(m: i64, delta: i128, d2: u128, dist: u128) -> (c: i128)
    requires
        -COORD_LIMIT <= m <= COORD_LIMIT,
        -2 * (COORD_LIMIT as int) <= delta <= 2 * (COORD_LIMIT as int),
        1 <= d2,
        dist == sqrt_floor(d2 as nat),
    ensures
        c == pull_axis(m as int, delta as int, d2 as int),
        -PULL_LIMIT <= c <= PULL_LIMIT,
{
    let ma: u128 = if m >= 0 {
        m as u128
    } else {
        (-m) as u128
    };
    let ad: u128 = if delta >= 0 {
        delta as u128
    } else {
        (-delta) as u128
    };
    proof {
        assert(ma == abs(m as int));
        assert(ad == abs(delta as int));
        assert(GRAVITY == 100_000i64);
        assert(SCALE == 1_000_000i64);
        assert((GRAVITY as int) * (ma as int) <= 1_000_000_000_000_000_000int)
            by (nonlinear_arith)
            requires
                0 <= ma <= 10_000_000_000_000int,
                GRAVITY == 100_000i64,
        ;
    }
    let n1: u128 = (GRAVITY as u128) * ma;
    proof {
        assert(n1 <= 1_000_000_000_000_000_000u128);
        assert((n1 as int) * (ad as int) <= 20_000_000_000_000_000_000_000_000_000_000int)
            by (nonlinear_arith)
            requires
                0 <= n1 <= 1_000_000_000_000_000_000int,
                0 <= ad <= 20_000_000_000_000int,
        ;
    }
    let n2: u128 = n1 * ad;
    proof {
        assert((n2 as int) * (SCALE as int)
            <= 20_000_000_000_000_000_000_000_000_000_000_000_000int)
            by (nonlinear_arith)
            requires
                0 <= n2 <= 20_000_000_000_000_000_000_000_000_000_000int,
                SCALE == 1_000_000i64,
        ;
    }
    let nm: u128 = n2 * (SCALE as u128);
    proof {
        lemma_sqrt_floor_props(d2 as nat);
        if dist == 0 {
            assert((sqrt_floor(d2 as nat) + 1) * (sqrt_floor(d2 as nat) + 1) == 1)
                by (nonlinear_arith)
                requires
                    sqrt_floor(d2 as nat) == 0,
            ;
            assert(false);
        }
    }
    let q1: u128 = nm / dist;
    let q: u128 = q1 / d2;
    proof {
        lemma_div_denominator(nm as int, dist as int, d2 as int);
        // The division result only shrinks the numerator.
        lemma_div_is_ordered_by_denominator(nm as int, 1, dist as int);
        lemma_div_basics(nm as int);
        lemma_div_is_ordered_by_denominator(q1 as int, 1, d2 as int);
        lemma_div_basics(q1 as int);
        assert(q <= nm);
        vstd::arithmetic::mul::lemma_mul_is_commutative(dist as int, d2 as int);
    }
    let c: i128 = q as i128;
    if (m >= 0) == (delta >= 0) {
        c
    } else {
        -c
    }
}

/// One frame of one particle, exactly as [`step_particle`] states it.
fn step_one(
    p: Particle,
    stars: &Vec<Star>,
    holes: &Vec<BlackHole>,
    width: i64,
    height: i64,
) -> (q: Particle)
    requires
        particle_wf(p),
        forall|i: int| 0 <= i < stars@.len() ==> star_wf(#[trigger] stars@[i]),
        forall|i: int| 0 <= i < holes@.len() ==> hole_wf(#[trigger] holes@[i]),
        0 < width <= COORD_LIMIT,
        0 < height <= COORD_LIMIT,
    ensures
        q == step_particle(p, stars@, holes@, width as int, height as int),
        particle_wf(q),
{
    let mut fx: i128 = 0;
    let mut fy: i128 = 0;
    let mut i: usize = 0;
    while i < stars.len()
        invariant
            i <= stars@.len(),
            particle_wf(p),
            forall|k: int| 0 <= k < stars@.len() ==> star_wf(#[trigger] stars@[k]),
            -FORCE_LIMIT <= fx <= FORCE_LIMIT,
            -FORCE_LIMIT <= fy <= FORCE_LIMIT,
            (fx as int, fy as int) == stars_force(p, stars@, i as nat),
        decreases stars@.len() - i,
    {
        let s = stars[i];
        let dx: i128 = (s.x as i128) - (p.x as i128);
        let dy: i128 = (s.y as i128) - (p.y as i128);
        proof {
            assert(0 <= (dx as int) * (dx as int) <= 400_000_000_000_000_000_000_000_000int)
                by (nonlinear_arith)
                requires
                    -20_000_000_000_000 <= dx <= 20_000_000_000_000int,
            ;
            assert(0 <= (dy as int) * (dy as int) <= 400_000_000_000_000_000_000_000_000int)
                by (nonlinear_arith)
                requires
                    -20_000_000_000_000 <= dy <= 20_000_000_000_000int,
            ;
        }
        let d2i: i128 = dx * dx + dy * dy;
        let d2: u128 = d2i as u128;
        if d2 > STAR_SOFTEN_D2 {
            let dist: u128 = isqrt(d2);
            let cx: i128 = axis_pull(s.mass, dx, d2, dist);
            let cy: i128 = axis_pull(s.mass, dy, d2, dist);
            fx = clamp_force(fx + cx);
            fy = clamp_force(fy + cy);
        }
        proof {
            assert((fx as int, fy as int) == stars_force(p, stars@, (i + 1) as nat));
        }
        i += 1;
    }
    let ghost star_fx: int = fx as int;
    let ghost star_fy: int = fy as int;
    let mut px: i64 = p.x;
    let mut j: usize = 0;
    while j < holes.len()
        invariant
            j <= holes@.len(),
            particle_wf(p),
            forall|k: int| 0 <= k < holes@.len() ==> hole_wf(#[trigger] holes@[k]),
            -FORCE_LIMIT <= fx <= FORCE_LIMIT,
            -FORCE_LIMIT <= fy <= FORCE_LIMIT,
            -COORD_LIMIT <= px <= COORD_LIMIT,
            (fx as int, fy as int, px as int) == holes_pass(
                p.x as int,
                p.y as int,
                holes@,
                star_fx,
                star_fy,
                j as nat,
            ),
        decreases holes@.len() - j,
    {
        let b = holes[j];
        let dx: i128 = (b.x as i128) - (px as i128);
        let dy: i128 = (b.y as i128) - (p.y as i128);
        proof {
            assert(0 <= (dx as int) * (dx as int) <= 400_000_000_000_000_000_000_000_000int)
                by (nonlinear_arith)
                requires
                    -20_000_000_000_000 <= dx <= 20_000_000_000_000int,
            ;
            assert(0 <= (dy as int) * (dy as int) <= 400_000_000_000_000_000_000_000_000int)
                by (nonlinear_arith)
                requires
                    -20_000_000_000_000 <= dy <= 20_000_000_000_000int,
            ;
        }
        let d2i: i128 = dx * dx + dy * dy;
        let d2: u128 = d2i as u128;
        if d2 > HOLE_SOFTEN_D2 {
            let dist: u128 = isqrt(d2);
            let cx: i128 = axis_pull(b.mass, dx, d2, dist);
            let cy: i128 = axis_pull(b.mass, dy, d2, dist);
            fx = clamp_force(fx + cx);
            fy = clamp_force(fy + cy);
        } else if d2 < HOLE_KILL_D2 {
            px = SENTINEL_X;
        }
        proof {
            assert((fx as int, fy as int, px as int) == holes_pass(
                p.x as int,
                p.y as int,
                holes@,
                star_fx,
                star_fy,
                (j + 1) as nat,
            ));
        }
        j += 1;
    }
    let vx: i64 = clamp_coord((p.vx as i128) + fx);
    let vy: i64 = clamp_coord((p.vy as i128) + fy);
    let x: i64 = clamp_coord((px as i128) + (vx as i128));
    let y: i64 = clamp_coord((p.y as i128) + (vy as i128));
    let vx2: i64 = if x < 0 || x > width {
        -vx
    } else {
        vx
    };
    let vy2: i64 = if y < 0 || y > height {
        -vy
    } else {
        vy
    };
    Particle { x, y, z: p.z, vx: vx2, vy: vy2, vz: p.vz }
}

/// Step every particle and keep those that end the frame strictly right of
/// `KEEP_MIN_X`.
fn advance_particles(
    ps: &Vec<Particle>,
    stars: &Vec<Star>,
    holes: &Vec<BlackHole>,
    width: i64,
    height: i64,
) -> (out: Vec<Particle>)
    requires
        forall|i: int| 0 <= i < ps@.len() ==> particle_wf(#[trigger] ps@[i]),
        forall|i: int| 0 <= i < stars@.len() ==> star_wf(#[trigger] stars@[i]),
        forall|i: int| 0 <= i < holes@.len() ==> hole_wf(#[trigger] holes@[i]),
        0 < width <= COORD_LIMIT,
        0 < height <= COORD_LIMIT,
    ensures
        out@ == tick_particles(ps@, stars@, holes@, width as int, height as int),
        forall|i: int| 0 <= i < out@.len() ==> particle_wf(#[trigger] out@[i]),
{
    let mut out: Vec<Particle> = Vec::new();
    let mut i: usize = 0;
    while i < ps.len()
        invariant
            i <= ps@.len(),
            forall|k: int| 0 <= k < ps@.len() ==> particle_wf(#[trigger] ps@[k]),
            forall|k: int| 0 <= k < stars@.len() ==> star_wf(#[trigger] stars@[k]),
            forall|k: int| 0 <= k < holes@.len() ==> hole_wf(#[trigger] holes@[k]),
            0 < width <= COORD_LIMIT,
            0 < height <= COORD_LIMIT,
            out@ == ticked_upto(ps@, stars@, holes@, width as int, height as int, i as nat),
            forall|k: int| 0 <= k < out@.len() ==> particle_wf(#[trigger] out@[k]),
        decreases ps@.len() - i,
    {
        let q = step_one(ps[i], stars, holes, width, height);
        if q.x > KEEP_MIN_X {
            out.push(q);
        }
        proof {
            assert(out@ == ticked_upto(
                ps@,
                stars@,
                holes@,
                width as int,
                height as int,
                (i + 1) as nat,
            ));
        }
        i += 1;
    }
    out
}

impl Particle {
    /// A particle at the given position and depth with the given velocity.
    pub fn new(x: i64, y: i64, z: i64, vx: i64, vy: i64) -> (p: Particle)
        ensures
            p == (Particle { x, y, z, vx, vy, vz: 0 }),
    {
        Particle { x, y, z, vx, vy, vz: 0 }
    }
}

impl Universe {
    /// A universe over the given bounds with `particle_count` randomly
    /// placed particles (a negative count means zero), no stars and no
    /// black holes. Every draw comes from the seeded generator, so the
    /// result is a pure function of the arguments.
    pub fn new(
        width: i64,
        height: i64,
        particle_count: i32,
        debug_mode: bool,
        seed: u64,
    ) -> (r: Universe)
        requires
            0 < width <= COORD_LIMIT,
            0 < height <= COORD_LIMIT,
        ensures
            r@ == spec_new_universe(
                width,
                height,
                (if particle_count < 0 { 0int } else { particle_count as int }) as nat,
                debug_mode,
                seed,
            ),
            r@.wf(),
            r@.particles.len() == if particle_count < 0 { 0int } else { particle_count as int },
    {
        let n: usize = if particle_count < 0 {
            0
        } else {
            particle_count as usize
        };
        let mut rng = Rng::from_seed(seed);
        let mut particles: Vec<Particle> = Vec::new();
        let mut i: usize = 0;
        while i < n
            invariant
                i <= n,
                0 < width <= COORD_LIMIT,
                0 < height <= COORD_LIMIT,
                particles@.len() == i,
                (particles@, rng.state) == gen_upto(seed, i as nat, width as int, height as int),
                forall|k: int| 0 <= k < particles@.len() ==> particle_wf(#[trigger] particles@[k]),
            decreases n - i,
        {
            let r1 = rng.next();
            let x = (r1 % (width as u64)) as i64;
            let r2 = rng.next();
            let y = (r2 % (height as u64)) as i64;
            let r3 = rng.next();
            let z = (r3 % 1_000_000u64) as i64;
            let r4 = rng.next();
            let vx = (r4 % 200_000u64) as i64 - 100_000;
            let r5 = rng.next();
            let vy = (r5 % 200_000u64) as i64 - 100_000;
            particles.push(Particle { x, y, z, vx, vy, vz: 0 });
            proof {
                assert(SCALE == 1_000_000i64);
                assert(INIT_VEL_LIMIT == 100_000i64);
                assert((particles@, rng.state) == gen_upto(
                    seed,
                    (i + 1) as nat,
                    width as int,
                    height as int,
                ));
            }
            i += 1;
        }
        Universe {
            width,
            height,
            particles,
            stars: Vec::new(),
            black_holes: Vec::new(),
            debug_mode,
            rng,
        }
    }

    /// Advance the simulation one frame. Returns `Some(count)` when the
    /// frame asks the host to log the particle count: only in debug mode,
    /// and then on one in a hundred generator draws. The draw never touches
    /// the physics.
    pub fn tick(&mut self) -> (log: Option<usize>)
        requires
            old(self)@.wf(),
        ensures
            final(self)@.wf(),
            final(self)@.particles == tick_particles(
                old(self)@.particles,
                old(self)@.stars,
                old(self)@.black_holes,
                old(self)@.width as int,
                old(self)@.height as int,
            ),
            final(self)@.stars == old(self)@.stars,
            final(self)@.black_holes == old(self)@.black_holes,
            final(self)@.width == old(self)@.width,
            final(self)@.height == old(self)@.height,
            final(self)@.debug_mode == old(self)@.debug_mode,
            final(self)@.rng_state == if old(self)@.debug_mode {
                crate::rng::rng_next(old(self)@.rng_state)
            } else {
                old(self)@.rng_state
            },
            old(self)@.debug_mode && crate::rng::rng_next(old(self)@.rng_state) % 100 == 0
                ==> log == Some(final(self)@.particles.len() as usize),
            !(old(self)@.debug_mode && crate::rng::rng_next(old(self)@.rng_state) % 100 == 0)
                ==> log is None,
    {
        proof {
            assert(self.particles@ == old(self)@.particles);
            assert(self.stars@ == old(self)@.stars);
            assert(self.black_holes@ == old(self)@.black_holes);
        }
        let out = advance_particles(
            &self.particles,
            &self.stars,
            &self.black_holes,
            self.width,
            self.height,
        );
        self.particles = out;
        proof {
            assert(self@.stars == old(self)@.stars);
            assert(self@.black_holes == old(self)@.black_holes);
            assert(self@.wf());
        }
        let mut log: Option<usize> = None;
        if self.debug_mode {
            let draw = self.rng.next();
            if draw % 100 == 0 {
                log = Some(self.particles.len());
            }
        }
        log
    }

    /// A universe over the given bounds holding exactly the given particles,
    /// no stars and no black holes.
    pub fn with_particles(
        width: i64,
        height: i64,
        particles: Vec<Particle>,
        debug_mode: bool,
        seed: u64,
    ) -> (r: Universe)
        requires
            0 < width <= COORD_LIMIT,
            0 < height <= COORD_LIMIT,
            forall|i: int| 0 <= i < particles@.len() ==> particle_wf(#[trigger] particles@[i]),
        ensures
            r@ == (UniverseView {
                width,
                height,
                particles: particles@,
                stars: Seq::empty(),
                black_holes: Seq::empty(),
                debug_mode,
                rng_state: seed,
            }),
            r@.wf(),
    {
        Universe {
            width,
            height,
            particles,
            stars: Vec::new(),
            black_holes: Vec::new(),
            debug_mode,
            rng: Rng::from_seed(seed),
        }
    }

    /// The current number of particles.
    pub fn particle_count(&self) -> (n: usize)
        ensures
            n == self@.particles.len(),
    {
        self.particles.len()
    }

    /// Append a star. The mass is taken as given: zero or negative masses
    /// are legal and simply weaken or reverse the force law.
    pub fn add_star(&mut self, x: i64, y: i64, mass: i64)
        requires
            old(self)@.wf(),
            -COORD_LIMIT <= x <= COORD_LIMIT,
            -COORD_LIMIT <= y <= COORD_LIMIT,
            -COORD_LIMIT <= mass <= COORD_LIMIT,
        ensures
            final(self)@ == (UniverseView {
                stars: old(self)@.stars.push(Star { x, y, mass, age: 0, is_ignited: true }),
                ..old(self)@
            }),
            final(self)@.wf(),
    {
        self.stars.push(Star { x, y, mass, age: 0, is_ignited: true });
        proof {
            let stars = self@.stars;
            assert forall|i: int| 0 <= i < stars.len() implies star_wf(#[trigger] stars[i]) by {
                if i < stars.len() - 1 {
                    assert(stars[i] == old(self)@.stars[i]);
                }
            }
        }
    }

    /// Append a black hole. As with stars, the mass is unvalidated.
    pub fn add_black_hole(&mut self, x: i64, y: i64, mass: i64)
        requires
            old(self)@.wf(),
            -COORD_LIMIT <= x <= COORD_LIMIT,
            -COORD_LIMIT <= y <= COORD_LIMIT,
            -COORD_LIMIT <= mass <= COORD_LIMIT,
        ensures
            final(self)@ == (UniverseView {
                black_holes: old(self)@.black_holes.push(BlackHole { x, y, mass }),
                ..old(self)@
            }),
            final(self)@.wf(),
    {
        self.black_holes.push(BlackHole { x, y, mass });
        proof {
            let holes = self@.black_holes;
            assert forall|i: int| 0 <= i < holes.len() implies hole_wf(#[trigger] holes[i]) by {
                if i < holes.len() - 1 {
                    assert(holes[i] == old(self)@.black_holes[i]);
                }
            }
        }
    }

    /// Copy the particle data out as a flat buffer: x, y, z per particle,
    /// in collection order. A pure read; the state is untouched.
    pub fn get_particles_data(&self) -> (data: Vec<i64>)
        ensures
            data@ == particle_flat(self@.particles),
            data@.len() == 3 * self@.particles.len(),
    {
        let ps = &self.particles;
        let mut data: Vec<i64> = Vec::new();
        let mut i: usize = 0;
        while i < ps.len()
            invariant
                i <= ps@.len(),
                ps@ == self@.particles,
                data@ == flat_upto(ps@, i as nat),
                data@.len() == 3 * i,
            decreases ps@.len() - i,
        {
            let p = ps[i];
            data.push(p.x);
            data.push(p.y);
            data.push(p.z);
            proof {
                assert(data@ =~= flat_upto(ps@, (i + 1) as nat));
            }
            i += 1;
        }
        data
    }
}

} // verus!
