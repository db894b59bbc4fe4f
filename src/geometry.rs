//! Fixed-point 3D vectors and the derivation of edge geometry.
use vstd::prelude::*;

verus! {

/// Number of fixed-point steps in one world unit.
pub const SCALE: i64 = 1_000_000;

/// Largest magnitude of a coordinate of a simulated position.
pub const WORLD_LIMIT: i64 = 1_000_000_000;

/// Upper bound of the squared lengths handed to `isqrt`.
pub const SQUARE_LIMIT: u64 = 16_000_000_000_000_000_000;

/// A point or a direction in world space, in fixed-point units of `1 / SCALE`.
#[derive(Clone, Copy, Debug, PartialEq, Eq, Structural)]
pub struct Vec3 {
    pub x: i64,
    pub y: i64,
    pub z: i64,
}

/// The renderable geometry of an edge, derived from its two endpoints.
#[derive(Clone, Copy, Debug, PartialEq, Eq, Structural)]
pub struct EdgeGeometry {
    /// Centre of the capsule.
    pub midpoint: Vec3,
    /// Long axis of the capsule: from source to target, or the fallback axis.
    pub axis: Vec3,
    /// The axis rescaled to a length of about `SCALE`.
    pub direction: Vec3,
    /// A view direction orthogonal to the axis, for the look-at construction.
    pub look: Vec3,
    /// Distance between the endpoints, rounded down.
    pub length: i64,
}

impl Vec3 {
    pub open spec fn is_zero(self) -> bool {
        self.x == 0 && self.y == 0 && self.z == 0
    }

    /// Every coordinate lies within `WORLD_LIMIT` of the origin.
    pub open spec fn in_world(self) -> bool {
        -WORLD_LIMIT <= self.x <= WORLD_LIMIT && -WORLD_LIMIT <= self.y <= WORLD_LIMIT
            && -WORLD_LIMIT <= self.z <= WORLD_LIMIT
    }

    pub open spec fn norm_sq(self) -> int {
        self.x * self.x + self.y * self.y + self.z * self.z
    }

    pub open spec fn dot(self, o: Vec3) -> int {
        self.x * o.x + self.y * o.y + self.z * o.z
    }

    pub fn new(x: i64, y: i64, z: i64) -> (r: Vec3)
        ensures
            r.x == x && r.y == y && r.z == z,
    {
        Vec3 { x, y, z }
    }

    pub fn zero() -> (r: Vec3)
        ensures
            r.is_zero(),
    {
        Vec3 { x: 0, y: 0, z: 0 }
    }
}

/// Squared distance between two points.
pub open spec fn dist_sq(a: Vec3, b: Vec3) -> int {
    (b.x - a.x) * (b.x - a.x) + (b.y - a.y) * (b.y - a.y) + (b.z - a.z) * (b.z - a.z)
}

/// `n / d` rounded toward zero, as Rust's integer division does.
pub open spec fn trunc_div(n: int, d: int) -> int {
    if n >= 0 {
        n / d
    } else {
        -((-n) / d)
    }
}

/// A quotient rounded toward zero is no larger in magnitude than `m` when the
/// dividend is at most `m` times the divisor.
pub proof fn lemma_trunc_div_bound(n: int, d: int, m: int)
    requires
        d > 0,
        m >= 0,
        -(m * d) <= n <= m * d,
    ensures
        -m <= trunc_div(n, d) <= m,
        n >= 0 ==> trunc_div(n, d) >= 0,
        n <= 0 ==> trunc_div(n, d) <= 0,
{
    vstd::arithmetic::div_mod::lemma_div_by_multiple(m, d);
    if n >= 0 {
        vstd::arithmetic::div_mod::lemma_div_is_ordered(n, m * d, d);
        vstd::arithmetic::div_mod::lemma_div_pos_is_pos(n, d);
    } else {
        vstd::arithmetic::div_mod::lemma_div_is_ordered(-n, m * d, d);
        vstd::arithmetic::div_mod::lemma_div_pos_is_pos(-n, d);
    }
}

/// `v` limited to `[-limit, limit]`.
pub open spec fn clamp_spec(v: int, limit: int) -> int {
    if v > limit {
        limit
    } else if v < -limit {
        -limit
    } else {
        v
    }
}

/// The axis a zero-length edge is given: straight up.
pub open spec fn fallback_axis_spec() -> Vec3 {
    Vec3 { x: 0, y: SCALE, z: 0 }
}

/// The capsule axis for an edge from `a` to `b`.
pub open spec fn axis_spec(a: Vec3, b: Vec3) -> Vec3 {
    if a == b {
        fallback_axis_spec()
    } else {
        Vec3 { x: (b.x - a.x) as i64, y: (b.y - a.y) as i64, z: (b.z - a.z) as i64 }
    }
}

/// The look direction chosen for an axis: the axis crossed with the unit
/// vector of its smallest coordinate, which is never parallel to it.
pub open spec fn look_spec(a: Vec3) -> Vec3 {
    let ax = if a.x >= 0 { a.x as int } else { -a.x };
    let ay = if a.y >= 0 { a.y as int } else { -a.y };
    let az = if a.z >= 0 { a.z as int } else { -a.z };
    if ax <= ay && ax <= az {
        Vec3 { x: 0, y: a.z, z: (-a.y) as i64 }
    } else if ay <= az {
        Vec3 { x: (-a.z) as i64, y: 0, z: a.x }
    } else {
        Vec3 { x: a.y, y: (-a.x) as i64, z: 0 }
    }
}

pub fn clamp(v: i64, limit: i64) -> (r: i64)
    requires
        limit >= 0,
    ensures
        r == clamp_spec(v as int, limit as int),
{
    if v > limit {
        limit
    } else if v < -limit {
        -limit
    } else {
        v
    }
}

/// The integer square root of `n`, rounded down.
pub fn isqrt(n: u64) -> (r: u64)
    requires
        n < SQUARE_LIMIT,
    ensures
        r * r <= n,
        n < (r + 1) * (r + 1),
        r < 4_000_000_000,
{
    let mut lo: u64 = 0;
    let mut hi: u64 = 4_000_000_000;
    assert(n < hi * hi);
    while lo + 1 < hi
        invariant
            lo < hi <= 4_000_000_000,
            lo * lo <= n,
            n < hi * hi,
        decreases hi - lo,
    {
        let mid: u64 = lo + (hi - lo) / 2;
        assert(mid * mid <= 16_000_000_000_000_000_000) by (nonlinear_arith)
            requires
                mid <= 4_000_000_000,
        ;
        if mid * mid <= n {
            lo = mid;
        } else {
            hi = mid;
        }
    }
    lo
}

/// The squared length of the vector `(dx, dy, dz)`, whose coordinates are
/// differences of two points of the world.
pub fn squared_length(dx: i64, dy: i64, dz: i64) -> (r: u64)
    requires
        -2 * WORLD_LIMIT <= dx <= 2 * WORLD_LIMIT,
        -2 * WORLD_LIMIT <= dy <= 2 * WORLD_LIMIT,
        -2 * WORLD_LIMIT <= dz <= 2 * WORLD_LIMIT,
    ensures
        r == dx * dx + dy * dy + dz * dz,
        r < SQUARE_LIMIT,
{
    assert(0 <= dx * dx <= 4_000_000_000_000_000_000 && 0 <= dy * dy <= 4_000_000_000_000_000_000 && 0
        <= dz * dz <= 4_000_000_000_000_000_000) by (nonlinear_arith)
        requires
            -2_000_000_000 <= dx <= 2_000_000_000,
            -2_000_000_000 <= dy <= 2_000_000_000,
            -2_000_000_000 <= dz <= 2_000_000_000,
    ;
    let (x, y, z) = (dx as i128, dy as i128, dz as i128);
    (x * x + y * y + z * z) as u64
}

/// `(a + b) / 2` rounded down.
fn half_sum(a: i64, b: i64) -> (r: i64)
    requires
        -WORLD_LIMIT <= a <= WORLD_LIMIT,
        -WORLD_LIMIT <= b <= WORLD_LIMIT,
    ensures
        r == (a + b) / 2,
{
    let s: i64 = a + b;
    if s >= 0 {
        s / 2
    } else {
        (s - 1) / 2
    }
}

/// A non-zero vector orthogonal to the non-zero vector `a`.
fn orthogonal_to(a: Vec3) -> (r: Vec3)
    requires
        !a.is_zero(),
        -2 * WORLD_LIMIT <= a.x <= 2 * WORLD_LIMIT,
        -2 * WORLD_LIMIT <= a.y <= 2 * WORLD_LIMIT,
        -2 * WORLD_LIMIT <= a.z <= 2 * WORLD_LIMIT,
    ensures
        r == look_spec(a),
        r.dot(a) == 0,
        !r.is_zero(),
        -2 * WORLD_LIMIT <= r.x <= 2 * WORLD_LIMIT,
        -2 * WORLD_LIMIT <= r.y <= 2 * WORLD_LIMIT,
        -2 * WORLD_LIMIT <= r.z <= 2 * WORLD_LIMIT,
{
    let ax: i64 = if a.x >= 0 { a.x } else { -a.x };
    let ay: i64 = if a.y >= 0 { a.y } else { -a.y };
    let az: i64 = if a.z >= 0 { a.z } else { -a.z };
    let r = if ax <= ay && ax <= az {
        // a cross the x unit vector
        Vec3 { x: 0, y: a.z, z: -a.y }
    } else if ay <= az {
        // a cross the y unit vector
        Vec3 { x: -a.z, y: 0, z: a.x }
    } else {
        // a cross the z unit vector
        Vec3 { x: a.y, y: -a.x, z: 0 }
    };
    assert(r.dot(a) == 0) by (nonlinear_arith)
        requires
            (r.x == 0 && r.y == a.z && r.z == -a.y) || (r.x == -a.z && r.y == 0 && r.z == a.x)
                || (r.x == a.y && r.y == -a.x && r.z == 0),
    ;
    r
}

/// Derives the capsule geometry of an edge from its endpoint positions.
///
/// The midpoint is the halved sum of the endpoints and the length is the
/// distance between them. A zero-length edge gets the fallback axis, so that
/// the axis, its rescaled direction and the look vector are never zero.
pub fn resolve_edge_geometry(source: Vec3, target: Vec3) -> (r: EdgeGeometry)
    requires
        source.in_world(),
        target.in_world(),
    ensures
        r.midpoint.x == (source.x + target.x) / 2,
        r.midpoint.y == (source.y + target.y) / 2,
        r.midpoint.z == (source.z + target.z) / 2,
        r.length * r.length <= dist_sq(source, target) < (r.length + 1) * (r.length + 1),
        r.axis == axis_spec(source, target),
        !r.axis.is_zero(),
        r.look == look_spec(r.axis),
        r.look.dot(r.axis) == 0,
        !r.look.is_zero(),
        source == target ==> r.direction == fallback_axis_spec(),
        source != target ==> r.length > 0 && r.direction.x == trunc_div(r.axis.x * SCALE, r.length as int)
            && r.direction.y == trunc_div(r.axis.y * SCALE, r.length as int)
            && r.direction.z == trunc_div(r.axis.z * SCALE, r.length as int),
{
    let midpoint = Vec3 {
        x: half_sum(source.x, target.x),
        y: half_sum(source.y, target.y),
        z: half_sum(source.z, target.z),
    };
    let dx: i64 = target.x - source.x;
    let dy: i64 = target.y - source.y;
    let dz: i64 = target.z - source.z;
    let sq: u64 = squared_length(dx, dy, dz);
    let root = isqrt(sq);
    let length = root as i64;
    if source == target {
        let axis = Vec3 { x: 0, y: SCALE, z: 0 };
        let look = orthogonal_to(axis);
        EdgeGeometry { midpoint, axis, direction: axis, look, length }
    } else {
        let axis = Vec3 { x: dx, y: dy, z: dz };
        assert(sq > 0) by (nonlinear_arith)
            requires
                dx != 0 || dy != 0 || dz != 0,
                sq == dx * dx + dy * dy + dz * dz,
        ;
        assert(length > 0) by (nonlinear_arith)
            requires
                sq < (length + 1) * (length + 1),
                sq > 0,
                length >= 0,
        ;
        let look = orthogonal_to(axis);
        assert(-2_000_000_000_000_000 <= dx * SCALE <= 2_000_000_000_000_000 && -2_000_000_000_000_000
            <= dy * SCALE <= 2_000_000_000_000_000 && -2_000_000_000_000_000 <= dz * SCALE
            <= 2_000_000_000_000_000) by (nonlinear_arith)
            requires
                -2_000_000_000 <= dx <= 2_000_000_000,
                -2_000_000_000 <= dy <= 2_000_000_000,
                -2_000_000_000 <= dz <= 2_000_000_000,
                SCALE == 1_000_000,
        ;
        let direction = Vec3 {
            x: dx * SCALE / length,
            y: dy * SCALE / length,
            z: dz * SCALE / length,
        };
        EdgeGeometry { midpoint, axis, direction, look, length }
    }
}

} // verus!
