//! The forces of the layout: a linear spring toward the origin and pairwise
//! repulsion that is weaker between nodes joined by an edge.
use vstd::prelude::*;
use crate::geometry::{Vec3, SCALE, trunc_div, isqrt, dist_sq, squared_length, lemma_trunc_div_bound};

verus! {

/// Spring constant of the pull toward the origin: twenty per second squared.
pub const ATTRACTION_NUM: i64 = 20;

pub const ATTRACTION_DEN: i64 = 1;

/// Repulsion strength between two nodes that no edge joins.
pub const REPULSION_UNCONNECTED: i64 = 60_000_000;

/// Repulsion strength between two nodes joined by an edge.
pub const REPULSION_CONNECTED: i64 = 30_000_000;

/// Distances below this one repel as strongly as this one.
pub const MIN_DISTANCE: i64 = 600_000;

/// Largest magnitude of an acceleration coordinate.
pub const ACCEL_LIMIT: i64 = 1_000_000_000_000;

/// Largest magnitude of a coordinate of the push between two nodes.
pub const PUSH_LIMIT: i64 = 200_000_000_000_000_000;

/// The coordinate `k` (0, 1 or 2) of `v`.
pub open spec fn coord(v: Vec3, k: int) -> int {
    if k == 0 {
        v.x as int
    } else if k == 1 {
        v.y as int
    } else {
        v.z as int
    }
}

/// `r` is the square root of `n` rounded down.
pub open spec fn is_floor_sqrt(n: int, r: int) -> bool {
    0 <= r && r * r <= n < (r + 1) * (r + 1)
}

/// The integer square root of `n`, rounded down.
pub open spec fn floor_sqrt(n: int) -> int {
    choose|r: int| #[trigger] is_floor_sqrt(n, r)
}

pub proof fn lemma_floor_sqrt_is(n: int, r: int)
    requires
        0 <= r,
        r * r <= n < (r + 1) * (r + 1),
    ensures
        floor_sqrt(n) == r,
{
    assert(is_floor_sqrt(n, r));
    let q = floor_sqrt(n);
    assert(0 <= q && q * q <= n < (q + 1) * (q + 1));
    if q < r {
        assert((q + 1) * (q + 1) <= r * r) by (nonlinear_arith)
            requires
                0 <= q < r,
        ;
    } else if r < q {
        assert((r + 1) * (r + 1) <= q * q) by (nonlinear_arith)
            requires
                0 <= r < q,
        ;
    }
}

/// Pull toward the origin along one axis, per second squared.
pub open spec fn attraction(p: int) -> int {
    trunc_div(-p * ATTRACTION_NUM, ATTRACTION_DEN as int)
}

/// Strength of the push between two nodes `dist` apart, per second squared:
/// inversely proportional to the distance clamped below at `MIN_DISTANCE`,
/// halved for connected nodes.
pub open spec fn repulsion_magnitude(dist: int, connected: bool) -> int {
    (SCALE * if connected {
        REPULSION_CONNECTED
    } else {
        REPULSION_UNCONNECTED
    }) / if dist > MIN_DISTANCE {
        dist
    } else {
        MIN_DISTANCE as int
    }
}

/// One coordinate of the push along the separation `d` of two nodes `dist`
/// apart; coincident nodes do not push each other.
pub open spec fn repulsion_axis(d: int, dist: int, connected: bool) -> int {
    if dist > 0 {
        trunc_div(d * repulsion_magnitude(dist, connected), dist)
    } else {
        0
    }
}

/// Coordinate `k` of the push that a node at `pj` gives a node at `pi`.
pub open spec fn pair_push(pi: Vec3, pj: Vec3, connected: bool, k: int) -> int {
    repulsion_axis(coord(pi, k) - coord(pj, k), floor_sqrt(dist_sq(pj, pi)), connected)
}

/// The pull toward the origin of a node at `p`.
pub fn attraction_of(p: Vec3) -> (r: Vec3)
    requires
        p.in_world(),
    ensures
        r.x == attraction(p.x as int),
        r.y == attraction(p.y as int),
        r.z == attraction(p.z as int),
        -ACCEL_LIMIT <= r.x <= ACCEL_LIMIT,
        -ACCEL_LIMIT <= r.y <= ACCEL_LIMIT,
        -ACCEL_LIMIT <= r.z <= ACCEL_LIMIT,
{
    proof {
        lemma_trunc_div_bound(-p.x * 20, 1, ACCEL_LIMIT as int);
        lemma_trunc_div_bound(-p.y * 20, 1, ACCEL_LIMIT as int);
        lemma_trunc_div_bound(-p.z * 20, 1, ACCEL_LIMIT as int);
    }
    Vec3 {
        x: -p.x * ATTRACTION_NUM / ATTRACTION_DEN,
        y: -p.y * ATTRACTION_NUM / ATTRACTION_DEN,
        z: -p.z * ATTRACTION_NUM / ATTRACTION_DEN,
    }
}

/// The push that a node at `pj` gives a node at `pi`.
pub fn repulsion(pi: Vec3, pj: Vec3, connected: bool) -> (r: Vec3)
    requires
        pi.in_world(),
        pj.in_world(),
    ensures
        r.x == pair_push(pi, pj, connected, 0),
        r.y == pair_push(pi, pj, connected, 1),
        r.z == pair_push(pi, pj, connected, 2),
        -PUSH_LIMIT <= r.x <= PUSH_LIMIT,
        -PUSH_LIMIT <= r.y <= PUSH_LIMIT,
        -PUSH_LIMIT <= r.z <= PUSH_LIMIT,
{
    let dx: i64 = pi.x - pj.x;
    let dy: i64 = pi.y - pj.y;
    let dz: i64 = pi.z - pj.z;
    let n: u64 = squared_length(dx, dy, dz);
    let root = isqrt(n);
    let dist: i64 = root as i64;
    proof {
        assert(dist_sq(pj, pi) == n);
        lemma_floor_sqrt_is(n as int, dist as int);
    }
    if dist == 0 {
        return Vec3::zero();
    }
    let m: i64 = if dist > MIN_DISTANCE { dist } else { MIN_DISTANCE };
    let strength: i64 = if connected { REPULSION_CONNECTED } else { REPULSION_UNCONNECTED };
    let mag: i64 = SCALE * strength / m;
    proof {
        lemma_trunc_div_bound(SCALE * strength, m as int, 100_000_000);
    }
    assert(-200_000_000_000_000_000 <= dx * mag <= 200_000_000_000_000_000 && -200_000_000_000_000_000
        <= dy * mag <= 200_000_000_000_000_000 && -200_000_000_000_000_000 <= dz * mag
        <= 200_000_000_000_000_000 && 200_000_000_000_000_000 <= 200_000 * ACCEL_LIMIT * dist) by (nonlinear_arith)
        requires
            -2_000_000_000 <= dx <= 2_000_000_000,
            -2_000_000_000 <= dy <= 2_000_000_000,
            -2_000_000_000 <= dz <= 2_000_000_000,
            0 <= mag <= 100_000_000,
            dist >= 1,
            ACCEL_LIMIT == 1_000_000_000_000,
    ;
    proof {
        lemma_trunc_div_bound(dx * mag, dist as int, 200_000 * ACCEL_LIMIT);
        lemma_trunc_div_bound(dy * mag, dist as int, 200_000 * ACCEL_LIMIT);
        lemma_trunc_div_bound(dz * mag, dist as int, 200_000 * ACCEL_LIMIT);
    }
    Vec3 { x: dx * mag / dist, y: dy * mag / dist, z: dz * mag / dist }
}

/// At every distance within the world, two nodes joined by an edge repel each
/// other strictly less than two nodes that no edge joins.
pub proof fn connected_pairs_repel_less(dist: int)
    requires
        0 < dist <= 4_000_000_000,
    ensures
        0 <= repulsion_magnitude(dist, true) < repulsion_magnitude(dist, false),
{
    let m: int = if dist > MIN_DISTANCE { dist } else { MIN_DISTANCE as int };
    let q1 = 30_000_000_000_000int / m;
    let q2 = 60_000_000_000_000int / m;
    vstd::arithmetic::div_mod::lemma_fundamental_div_mod(30_000_000_000_000, m);
    vstd::arithmetic::div_mod::lemma_fundamental_div_mod(60_000_000_000_000, m);
    vstd::arithmetic::div_mod::lemma_mod_bound(30_000_000_000_000, m);
    vstd::arithmetic::div_mod::lemma_mod_bound(60_000_000_000_000, m);
    assert(q1 + 1 <= q2) by (nonlinear_arith)
        requires
            30_000_000_000_000 == m * q1 + 30_000_000_000_000int % m,
            60_000_000_000_000 == m * q2 + 60_000_000_000_000int % m,
            0 <= 30_000_000_000_000int % m < m,
            0 <= 60_000_000_000_000int % m < m,
            600_000 <= m <= 4_000_000_000,
    ;
    assert(q1 >= 0) by (nonlinear_arith)
        requires
            30_000_000_000_000 == m * q1 + 30_000_000_000_000int % m,
            0 <= 30_000_000_000_000int % m < m,
            600_000 <= m,
    ;
}

} // verus!
