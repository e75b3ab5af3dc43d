//! Fixed-point numeric layer.
//!
//! Every world quantity (coordinate, velocity, mass) is stored as an `i64`
//! count of micro-units: `SCALE` units make one world unit. A squared
//! distance between two fixed-point coordinates therefore carries a factor
//! of `SCALE * SCALE` relative to the squared world distance.

use vstd::prelude::*;

verus! {

/// Fixed-point units per world unit.
pub const SCALE: i64 = 1_000_000;

/// Gravitational constant: one tenth of a world unit, in fixed point.
pub const GRAVITY: i64 = 100_000;

/// Largest magnitude any stored coordinate, velocity or mass may take
/// (ten million world units). This is the representational limit of the
/// simulation; values that would leave it are clamped to it.
pub const COORD_LIMIT: i64 = 10_000_000_000_000;

/// Cap on an accumulated force component.
pub const FORCE_LIMIT: i128 = 100_000_000_000_000_000;

/// Loose bound on a single body's force contribution along one axis;
/// it only has to keep the force accumulation inside `i128`.
pub const PULL_LIMIT: i128 = 20_000_000_000_000_000_000_000_000_000_000_000_000;

/// Clamp a value into the representable coordinate range.
pub open spec fn clamped_coord(v: int) -> int {
    if v > COORD_LIMIT {
        COORD_LIMIT as int
    } else if v < -(COORD_LIMIT as int) {
        -(COORD_LIMIT as int)
    } else {
        v
    }
}

/// Clamp an accumulated force component into the force range.
pub open spec fn clamped_force(v: int) -> int {
    if v > FORCE_LIMIT {
        FORCE_LIMIT as int
    } else if v < -(FORCE_LIMIT as int) {
        -(FORCE_LIMIT as int)
    } else {
        v
    }
}

pub fn clamp_coord(v: i128) -> (r: i64)
    ensures
        r == clamped_coord(v as int),
        -COORD_LIMIT <= r <= COORD_LIMIT,
{
    if v > COORD_LIMIT as i128 {
        COORD_LIMIT
    } else if v < -(COORD_LIMIT as i128) {
        -COORD_LIMIT
    } else {
        v as i64
    }
}

pub fn clamp_force(v: i128) -> (r: i128)
    ensures
        r == clamped_force(v as int),
        -FORCE_LIMIT <= r <= FORCE_LIMIT,
{
    if v > FORCE_LIMIT {
        FORCE_LIMIT
    } else if v < -FORCE_LIMIT {
        -FORCE_LIMIT
    } else {
        v
    }
}

/// Floor of the square root, defined by stepping up from zero.
pub open spec fn sqrt_floor(n: nat) -> nat
    decreases n,
{
    if n == 0 {
        0
    } else {
        let r = sqrt_floor((n - 1) as nat);
        if (r + 1) * (r + 1) <= n {
            r + 1
        } else {
            r
        }
    }
}

/// `sqrt_floor(n)` squares to at most `n`, and is the largest number to do so.
pub proof fn lemma_sqrt_floor_props(n: nat)
    ensures
        sqrt_floor(n) * sqrt_floor(n) <= n,
        n < (sqrt_floor(n) + 1) * (sqrt_floor(n) + 1),
    decreases n,
{
    if n == 0 {
        assert(sqrt_floor(0) == 0);
        assert(sqrt_floor(n) * sqrt_floor(n) <= n) by (nonlinear_arith)
            requires
                n == 0,
                sqrt_floor(n) == 0,
        ;
        assert(n < (sqrt_floor(n) + 1) * (sqrt_floor(n) + 1)) by (nonlinear_arith)
            requires
                n == 0,
                sqrt_floor(n) == 0,
        ;
    } else {
        lemma_sqrt_floor_props((n - 1) as nat);
        let r = sqrt_floor((n - 1) as nat);
        assert(r * r <= n - 1);
        assert(n - 1 < (r + 1) * (r + 1));
        if (r + 1) * (r + 1) <= n {
            assert(sqrt_floor(n) == r + 1);
            // (r + 1)^2 > n - 1 and (r + 1)^2 <= n force (r + 1)^2 == n.
            assert(n == (r + 1) * (r + 1));
            assert((r + 2) * (r + 2) > (r + 1) * (r + 1)) by (nonlinear_arith)
                requires
                    0 <= r,
            ;
            assert(sqrt_floor(n) * sqrt_floor(n) <= n);
            assert(n < (sqrt_floor(n) + 1) * (sqrt_floor(n) + 1));
        } else {
            assert(sqrt_floor(n) == r);
            assert(sqrt_floor(n) * sqrt_floor(n) <= n);
            assert(n < (sqrt_floor(n) + 1) * (sqrt_floor(n) + 1));
        }
    }
}

/// The square-root floor is pinned by its two characteristic inequalities.
pub proof fn lemma_sqrt_floor_unique(n: nat, r: nat)
    requires
        r * r <= n,
        n < (r + 1) * (r + 1),
    ensures
        r == sqrt_floor(n),
{
    lemma_sqrt_floor_props(n);
    let s = sqrt_floor(n);
    if r < s {
        assert((r + 1) * (r + 1) <= s * s) by (nonlinear_arith)
            requires
                r + 1 <= s,
                0 <= r,
        ;
        assert(false);
    }
    if s < r {
        assert((s + 1) * (s + 1) <= r * r) by (nonlinear_arith)
            requires
                s + 1 <= r,
                0 <= s,
        ;
        assert(false);
    }
}

/// Integer square root by bisection.
pub fn isqrt(n: u128) -> (r: u128)
    requires
        n < 0x1_0000_0000_0000_0000_0000_0000,  // 2^96
    ensures
        r == sqrt_floor(n as nat),
        r * r <= n,
        n < (r + 1) * (r + 1),
{
    let mut lo: u128 = 0;
    let mut hi: u128 = 0x1_0000_0000_0000;  // 2^48
    assert(0x1_0000_0000_0000int * 0x1_0000_0000_0000int == 0x1_0000_0000_0000_0000_0000_0000int);
    while lo + 1 < hi
        invariant
            lo < hi,
            hi <= 0x1_0000_0000_0000,
            (lo as int) * (lo as int) <= n as int,
            (n as int) < (hi as int) * (hi as int),
        decreases hi - lo,
    {
        let mid: u128 = lo + (hi - lo) / 2;
        assert((mid as int) * (mid as int) < 0x1_0000_0000_0000_0000_0000_0000int) by (nonlinear_arith)
            requires
                0 <= mid,
                mid < 0x1_0000_0000_0000,
        ;
        if mid * mid <= n {
            lo = mid;
        } else {
            hi = mid;
        }
    }
    proof {
        lemma_sqrt_floor_unique(n as nat, lo as nat);
    }
    lo
}

} // verus!
