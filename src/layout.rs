//! Force-directed placement of the visible nodes.
use vstd::prelude::*;
use crate::geometry::{
    Vec3, EdgeGeometry, SCALE, WORLD_LIMIT, trunc_div, clamp_spec, clamp, dist_sq, axis_spec, look_spec,
    resolve_edge_geometry,
};
use crate::picking::hovered_edge_records;
use crate::store::{Node, Edge, GraphStore, FetchError, passes_filter, in_filter};
use crate::forces::{ACCEL_LIMIT, PUSH_LIMIT, coord, attraction, pair_push, attraction_of, repulsion};

verus! {

/// Resolution of the ring parameter used for initial placement.
pub const RING_STEPS: i64 = 1_048_576;

/// Ring radius per placed node: three tenths of a unit.
pub const RING_SPACING: i64 = 300_000;

/// Largest magnitude of a velocity coordinate, in fixed-point units per second.
pub const SPEED_LIMIT: i64 = 100_000_000_000;

/// Fraction of the velocity kept from one tick to the next: 85 hundredths.
pub const DAMPING_NUM: i64 = 85;

pub const DAMPING_DEN: i64 = 100;

/// Below this speed a body is brought to rest.
pub const REST_SPEED: i64 = 1000;

/// Longest time step a tick integrates, in milliseconds.
pub const MAX_STEP_MS: u64 = 100;

/// Simulated objects of the visible nodes.
pub struct LayoutEngine {
    pub bodies: Vec<Body>,
}

/// The simulated object of a visible node.
pub struct Body {
    pub id: String,
    pub project: String,
    pub position: Vec3,
    /// Velocity in fixed-point units per second.
    pub velocity: Vec3,
}

/// Where node `index` of `total` sits on the ring, as a parameter in
/// `[-RING_STEPS, RING_STEPS)`: `RING_STEPS` stands for half a turn, so the
/// parameter is `2 * index / total` turns, taken past half a turn to the
/// negative side. Distinct indices get distinct parameters while `total`
/// is at most `2 * RING_STEPS`.
pub open spec fn ring_step(index: int, total: int) -> int {
    let s = (2 * index * RING_STEPS) / total;
    if s >= RING_STEPS {
        s - 2 * RING_STEPS
    } else {
        s
    }
}

/// The tangent of a quarter of the angle that ring parameter `s` stands for,
/// scaled by `RING_STEPS`: the angle is `x = pi * s / (4 * RING_STEPS)`, with
/// pi taken as 355/113, and its tangent is approximated by
/// `x (15 - x^2) / (15 - 6 x^2)`, which is within a thousandth on the range.
pub open spec fn quarter_tan(s: int) -> int {
    let p = 355 * s;
    let q = 452 * RING_STEPS;
    clamp_spec(trunc_div(p * (15 * (q * q) - p * p), 452 * (15 * (q * q) - 6 * (p * p))), RING_STEPS as int)
}

/// Ring placement of the `index`-th of `total` nodes: the point at angle
/// `4 * atan(t / RING_STEPS)` with `t = quarter_tan(ring_step(index, total))`,
/// that is about `2 * pi * index / total`, written with the rational
/// parametrisation of the circle so that no trigonometry is needed. Node 0
/// sits at angle 0. The radius grows by `RING_SPACING` per node, up to the
/// edge of the world; the height rises and falls by half a unit with the
/// sine of the angle.
pub open spec fn ring_position(index: int, total: int) -> Vec3 {
    let s = quarter_tan(ring_step(index, total));
    let c = RING_STEPS;
    let cc = c * c;
    let ss = s * s;
    let cos_num = (cc - ss) * (cc - ss) - 4 * cc * ss;
    let sin_num = 4 * c * s * (cc - ss);
    let den = (cc + ss) * (cc + ss);
    let radius = if total * RING_SPACING > WORLD_LIMIT { WORLD_LIMIT as int } else { total * RING_SPACING };
    Vec3 {
        x: trunc_div(radius * cos_num, den) as i64,
        y: (trunc_div((SCALE / 2) * sin_num, den) + SCALE / 2) as i64,
        z: trunc_div(radius * sin_num, den) as i64,
    }
}

/// Distinct nodes of a ring of at most `2 * RING_STEPS` get distinct ring
/// parameters.
pub proof fn ring_steps_distinct(i: int, j: int, total: int)
    requires
        0 <= i < j < total,
        total <= 2 * RING_STEPS,
    ensures
        ring_step(i, total) != ring_step(j, total),
        -RING_STEPS <= ring_step(i, total) < RING_STEPS,
{
    let a = 2 * i * RING_STEPS;
    let b = 2 * j * RING_STEPS;
    vstd::arithmetic::div_mod::lemma_fundamental_div_mod(a, total);
    vstd::arithmetic::div_mod::lemma_fundamental_div_mod(b, total);
    vstd::arithmetic::div_mod::lemma_mod_bound(a, total);
    vstd::arithmetic::div_mod::lemma_mod_bound(b, total);
    let qa = a / total;
    let qb = b / total;
    assert(b - a >= total) by (nonlinear_arith)
        requires
            a == 2 * i * RING_STEPS,
            b == 2 * j * RING_STEPS,
            i < j,
            total <= 2 * RING_STEPS,
    ;
    assert(qa < qb) by (nonlinear_arith)
        requires
            a == total * qa + a % total,
            b == total * qb + b % total,
            0 <= a % total < total,
            0 <= b % total < total,
            b - a >= total,
            total > 0,
    ;
    assert(0 <= a && b < 2 * RING_STEPS * total) by (nonlinear_arith)
        requires
            a == 2 * i * RING_STEPS,
            b == 2 * j * RING_STEPS,
            0 <= i,
            j < total,
            RING_STEPS > 0,
    ;
    assert(0 <= qa && qb < 2 * RING_STEPS) by (nonlinear_arith)
        requires
            a == total * qa + a % total,
            b == total * qb + b % total,
            0 <= a % total < total,
            0 <= b % total < total,
            0 <= a,
            b < 2 * RING_STEPS * total,
            total > 0,
    ;
}

proof fn lemma_ring_bounds(s: int, c: int, cc: int, ss: int)
    requires
        c == RING_STEPS,
        -c <= s <= c,
        cc == c * c,
        ss == s * s,
    ensures
        (cc + ss) * (cc + ss) > 0,
        -((cc + ss) * (cc + ss)) <= (cc - ss) * (cc - ss) - 4 * cc * ss <= (cc + ss) * (cc + ss),
        -((cc + ss) * (cc + ss)) <= 4 * c * s * (cc - ss) <= (cc + ss) * (cc + ss),
{
    let a = cc - ss;
    let b = 2 * c * s;
    let d = cc + ss;
    assert(cc > 0 && ss >= 0) by (nonlinear_arith)
        requires
            c == RING_STEPS,
            cc == c * c,
            ss == s * s,
    ;
    assert(d * d > 0) by (nonlinear_arith)
        requires
            d > 0,
    ;
    assert(b * b == 4 * cc * ss) by (nonlinear_arith)
        requires
            b == 2 * c * s,
            cc == c * c,
            ss == s * s,
    ;
    assert(a * a + b * b == d * d) by (nonlinear_arith)
        requires
            a == cc - ss,
            b * b == 4 * cc * ss,
            d == cc + ss,
    ;
    assert(2 * a * b == 4 * c * s * (cc - ss)) by (nonlinear_arith)
        requires
            a == cc - ss,
            b == 2 * c * s,
    ;
    assert(a * a >= 0 && b * b >= 0) by (nonlinear_arith);
    assert(-(d * d) <= 2 * a * b <= d * d) by (nonlinear_arith)
        requires
            a * a + b * b == d * d,
    ;
}

/// The tangent estimate of `quarter_tan`, for a parameter within the ring.
fn quarter_tan_of(s: i128) -> (r: i128)
    requires
        -RING_STEPS <= s <= RING_STEPS,
    ensures
        r == quarter_tan(s as int),
        -RING_STEPS <= r <= RING_STEPS,
{
    let p: i128 = 355 * s;
    let q: i128 = 452 * RING_STEPS as i128;
    assert(q * q == 224_634_623_601_147_904 && 0 <= p * p <= 138_565_952_890_470_400) by (nonlinear_arith)
        requires
            q == 473_956_352,
            -372_244_480 <= p <= 372_244_480,
    ;
    let x: i128 = 15 * (q * q) - p * p;
    let y: i128 = 15 * (q * q) - 6 * (p * p);
    assert(-1_300_000_000_000_000_000_000_000_000 <= p * x <= 1_300_000_000_000_000_000_000_000_000)
        by (nonlinear_arith)
        requires
            -372_244_480 <= p <= 372_244_480,
            0 <= x <= 3_369_519_354_017_218_560,
    ;
    let t: i128 = p * x / (452 * y);
    if t > RING_STEPS as i128 {
        RING_STEPS as i128
    } else if t < -(RING_STEPS as i128) {
        -(RING_STEPS as i128)
    } else {
        t
    }
}

/// Start position of the `index`-th of `total` newly placed nodes.
pub fn initial_position(index: usize, total: usize) -> (r: Vec3)
    requires
        index < total,
    ensures
        r == ring_position(index as int, total as int),
        r.in_world(),
        0 <= r.y <= SCALE,
{
    let k: u128 = RING_STEPS as u128;
    let step: u128 = (2 * (index as u128) * k) / (total as u128);
    assert(step < 2 * k) by (nonlinear_arith)
        requires
            step == (2 * index * k) / (total as int),
            index < total,
            k > 0,
    ;
    let wrapped: i128 = if step >= k { step as i128 - 2 * k as i128 } else { step as i128 };
    let s: i128 = quarter_tan_of(wrapped);
    let c: i128 = RING_STEPS as i128;
    assert(0 <= s * s <= 1_099_511_627_776) by (nonlinear_arith)
        requires
            -1_048_576 <= s <= 1_048_576,
    ;
    let cc: i128 = c * c;
    let ss: i128 = s * s;
    assert(0 <= 4 * cc * ss <= 4_835_703_278_458_516_698_824_704 && 0 <= (cc - ss) * (cc - ss)
        <= 4_835_703_278_458_516_698_824_704 && -4_835_703_278_458_516_698_824_704 <= 4 * c * s
        * (cc - ss) <= 4_835_703_278_458_516_698_824_704 && 0 <= (cc + ss) * (cc + ss)
        <= 4_835_703_278_458_516_698_824_704 && -4_398_046_511_104 <= 4 * c * s <= 4_398_046_511_104)
        by (nonlinear_arith)
        requires
            cc == 1_099_511_627_776,
            0 <= ss <= 1_099_511_627_776,
            c == 1_048_576,
            -1_048_576 <= s <= 1_048_576,
    ;
    let cos_num: i128 = (cc - ss) * (cc - ss) - 4 * cc * ss;
    let sin_num: i128 = 4 * c * s * (cc - ss);
    let den: i128 = (cc + ss) * (cc + ss);
    let radius: i128 = if (total as u128) * 300_000 > 1_000_000_000 {
        WORLD_LIMIT as i128
    } else {
        total as i128 * RING_SPACING as i128
    };
    proof {
        lemma_ring_bounds(s as int, c as int, cc as int, ss as int);
    }
    assert(-(radius * den) <= radius * cos_num <= radius * den && -(radius * den) <= radius * sin_num
        <= radius * den && radius * den <= 4_835_703_278_458_516_698_824_704_000_000_000)
        by (nonlinear_arith)
        requires
            0 <= radius <= 1_000_000_000,
            -den <= cos_num <= den,
            -den <= sin_num <= den,
            den <= 4_835_703_278_458_516_698_824_704,
    ;
    assert(-(500_000 * den) <= 500_000 * sin_num <= 500_000 * den) by (nonlinear_arith)
        requires
            -den <= sin_num <= den,
    ;
    proof {
        crate::geometry::lemma_trunc_div_bound(radius * cos_num, den as int, radius as int);
        crate::geometry::lemma_trunc_div_bound(radius * sin_num, den as int, radius as int);
        crate::geometry::lemma_trunc_div_bound(500_000 * sin_num, den as int, 500_000);
    }
    Vec3 {
        x: (radius * cos_num / den) as i64,
        y: ((SCALE / 2) as i128 * sin_num / den) as i64 + SCALE / 2,
        z: (radius * sin_num / den) as i64,
    }
}

impl Body {
    /// Position inside the world and velocity inside the speed limit.
    pub open spec fn bounded(self) -> bool {
        self.position.in_world() && -SPEED_LIMIT <= self.velocity.x <= SPEED_LIMIT && -SPEED_LIMIT
            <= self.velocity.y <= SPEED_LIMIT && -SPEED_LIMIT <= self.velocity.z <= SPEED_LIMIT
    }

    /// A field-by-field copy.
    pub fn duplicate(&self) -> (r: Body)
        ensures
            r == *self,
    {
        Body {
            id: self.id.clone(),
            project: self.project.clone(),
            position: self.position,
            velocity: self.velocity,
        }
    }
}

/// The bodies `after` are `before` with bodies appended for the visible nodes
/// that had none: every visible node has a body, and each appended body was
/// spawned for a visible node whose id no earlier body carries.
pub open spec fn spawn_result(before: Seq<Body>, after: Seq<Body>, nodes: Seq<Node>, filter: Option<String>) -> bool {
    &&& before.len() <= after.len()
    &&& after.take(before.len() as int) == before
    &&& forall|k: int|
        0 <= k < nodes.len() && passes_filter(nodes[k].project@, filter) ==> has_body(
            after,
            #[trigger] nodes[k].id@,
        )
    &&& forall|i: int|
        before.len() <= i < after.len() ==> spawned_from(nodes, filter, #[trigger] after[i]) && !has_body(
            after.take(i),
            after[i].id@,
        )
}

/// Whether an edge joins the nodes `a` and `b`, in either direction.
pub open spec fn connected(edges: Seq<Edge>, a: Seq<char>, b: Seq<char>) -> bool {
    exists|e: int|
        0 <= e < edges.len() && ((#[trigger] edges[e].source@ == a && edges[e].target@ == b) || (
        edges[e].source@ == b && edges[e].target@ == a))
}

/// Coordinate `k` of the acceleration of body `i` from the pull toward the
/// origin and the pushes of bodies `0 .. j`.
pub open spec fn accel_upto(bodies: Seq<Body>, edges: Seq<Edge>, i: int, j: int, k: int) -> int
    decreases j,
{
    if j <= 0 {
        attraction(coord(bodies[i].position, k))
    } else if j - 1 == i {
        accel_upto(bodies, edges, i, j - 1, k)
    } else {
        accel_upto(bodies, edges, i, j - 1, k) + pair_push(
            bodies[i].position,
            bodies[j - 1].position,
            connected(edges, bodies[i].id@, bodies[j - 1].id@),
            k,
        )
    }
}

/// Coordinate `k` of the acceleration of body `i`: the whole sum, kept
/// within `ACCEL_LIMIT` once at the end.
pub open spec fn acceleration(bodies: Seq<Body>, edges: Seq<Edge>, i: int, k: int) -> int {
    clamp_spec(accel_upto(bodies, edges, i, bodies.len() as int, k), ACCEL_LIMIT as int)
}

/// One velocity coordinate after a step of `dt` milliseconds under
/// acceleration `a`, damped and kept within the speed limit.
pub open spec fn damped_velocity(v: int, a: int, dt: int) -> int {
    clamp_spec(trunc_div((v + trunc_div(a * dt, 1000)) * DAMPING_NUM, DAMPING_DEN as int), SPEED_LIMIT as int)
}

/// The velocity after a step; a speed under `REST_SPEED` comes to rest.
pub open spec fn next_velocity(v: Vec3, a: Vec3, dt: int) -> Vec3 {
    let w = Vec3 {
        x: damped_velocity(v.x as int, a.x as int, dt) as i64,
        y: damped_velocity(v.y as int, a.y as int, dt) as i64,
        z: damped_velocity(v.z as int, a.z as int, dt) as i64,
    };
    if w.norm_sq() < REST_SPEED * REST_SPEED {
        Vec3 { x: 0, y: 0, z: 0 }
    } else {
        w
    }
}

/// One position coordinate moved by velocity `v` for `dt` milliseconds,
/// kept inside the world.
pub open spec fn moved(p: int, v: int, dt: int) -> int {
    clamp_spec(p + trunc_div(v * dt, 1000), WORLD_LIMIT as int)
}

/// Body `i` after one tick of `dt` milliseconds.
pub open spec fn stepped_body(bodies: Seq<Body>, edges: Seq<Edge>, i: int, dt: int) -> Body {
    let b = bodies[i];
    let a = Vec3 {
        x: acceleration(bodies, edges, i, 0) as i64,
        y: acceleration(bodies, edges, i, 1) as i64,
        z: acceleration(bodies, edges, i, 2) as i64,
    };
    let v = next_velocity(b.velocity, a, dt);
    Body {
        id: b.id,
        project: b.project,
        position: Vec3 {
            x: moved(b.position.x as int, v.x as int, dt) as i64,
            y: moved(b.position.y as int, v.y as int, dt) as i64,
            z: moved(b.position.z as int, v.z as int, dt) as i64,
        },
        velocity: v,
    }
}

/// The time step a tick integrates: the elapsed time, at most `MAX_STEP_MS`.
pub open spec fn step_ms(dt_ms: u64) -> int {
    if dt_ms > MAX_STEP_MS {
        MAX_STEP_MS as int
    } else {
        dt_ms as int
    }
}

/// Whether an edge joins the nodes `a` and `b`, in either direction.
pub fn are_connected(edges: &Vec<Edge>, a: &String, b: &String) -> (r: bool)
    ensures
        r == connected(edges@, a@, b@),
{
    let mut e: usize = 0;
    while e < edges.len()
        invariant
            e <= edges@.len(),
            forall|f: int|
                0 <= f < e ==> !((#[trigger] edges@[f].source@ == a@ && edges@[f].target@ == b@) || (
                edges@[f].source@ == b@ && edges@[f].target@ == a@)),
        decreases edges@.len() - e,
    {
        if (edges[e].source.eq(a) && edges[e].target.eq(b)) || (edges[e].source.eq(b) && edges[e].target.eq(a)) {
            return true;
        }
        e = e + 1;
    }
    false
}

/// A wide sum kept within `ACCEL_LIMIT`.
fn clamp_wide(v: i128) -> (r: i64)
    ensures
        r == clamp_spec(v as int, ACCEL_LIMIT as int),
{
    if v > ACCEL_LIMIT as i128 {
        ACCEL_LIMIT
    } else if v < -(ACCEL_LIMIT as i128) {
        -ACCEL_LIMIT
    } else {
        v as i64
    }
}

/// One velocity coordinate after a step.
fn damp_axis(v: i64, a: i64, dt: i64) -> (r: i64)
    requires
        -SPEED_LIMIT <= v <= SPEED_LIMIT,
        -ACCEL_LIMIT <= a <= ACCEL_LIMIT,
        0 <= dt <= 100,
    ensures
        r == damped_velocity(v as int, a as int, dt as int),
        -SPEED_LIMIT <= r <= SPEED_LIMIT,
{
    assert(-100_000_000_000_000 <= a * dt <= 100_000_000_000_000) by (nonlinear_arith)
        requires
            -1_000_000_000_000 <= a <= 1_000_000_000_000,
            0 <= dt <= 100,
    ;
    proof {
        crate::geometry::lemma_trunc_div_bound(a * dt, 1000, 100_000_000_000);
    }
    let w: i64 = v + a * dt / 1000;
    clamp(w * DAMPING_NUM / DAMPING_DEN, SPEED_LIMIT)
}

/// One position coordinate after a step.
fn move_axis(p: i64, v: i64, dt: i64) -> (r: i64)
    requires
        -WORLD_LIMIT <= p <= WORLD_LIMIT,
        -SPEED_LIMIT <= v <= SPEED_LIMIT,
        0 <= dt <= 100,
    ensures
        r == moved(p as int, v as int, dt as int),
        -WORLD_LIMIT <= r <= WORLD_LIMIT,
{
    assert(-10_000_000_000_000 <= v * dt <= 10_000_000_000_000) by (nonlinear_arith)
        requires
            -100_000_000_000 <= v <= 100_000_000_000,
            0 <= dt <= 100,
    ;
    proof {
        crate::geometry::lemma_trunc_div_bound(v * dt, 1000, 10_000_000_000);
    }
    clamp(p + v * dt / 1000, WORLD_LIMIT)
}

/// `i` is the first position in `bodies` whose id is `id`.
pub open spec fn is_first_body_with_id(bodies: Seq<Body>, id: Seq<char>, i: int) -> bool {
    0 <= i < bodies.len() && bodies[i].id@ == id && forall|j: int| 0 <= j < i ==> bodies[j].id@ != id
}

/// The geometry derived for an edge between bodies at `a` and `b`.
pub open spec fn derived_from(g: EdgeGeometry, a: Vec3, b: Vec3) -> bool {
    &&& g.midpoint.x == (a.x + b.x) / 2
    &&& g.midpoint.y == (a.y + b.y) / 2
    &&& g.midpoint.z == (a.z + b.z) / 2
    &&& g.length * g.length <= dist_sq(a, b) < (g.length + 1) * (g.length + 1)
    &&& g.axis == axis_spec(a, b)
    &&& !g.axis.is_zero()
    &&& g.look == look_spec(g.axis)
    &&& g.look.dot(g.axis) == 0
    &&& !g.look.is_zero()
}

/// No two bodies carry one id.
pub open spec fn ids_distinct(bodies: Seq<Body>) -> bool {
    forall|i: int, j: int|
        0 <= i < j < bodies.len() ==> (#[trigger] bodies[i]).id@ != (#[trigger] bodies[j]).id@
}

/// `r` holds, for each edge in order, `None` when an endpoint has no body and
/// otherwise the geometry derived between the first bodies of its endpoints.
pub open spec fn geometry_result(bodies: Seq<Body>, edges: Seq<Edge>, r: Seq<Option<EdgeGeometry>>) -> bool {
    &&& r.len() == edges.len()
    &&& forall|e: int|
        0 <= e < edges.len() ==> ((#[trigger] r[e]) is None <==> (!has_body(bodies, edges[e].source@)
            || !has_body(bodies, edges[e].target@)))
    &&& forall|e: int|
        0 <= e < edges.len() && (#[trigger] r[e]) is Some ==> exists|s: int, t: int|
            is_first_body_with_id(bodies, edges[e].source@, s) && is_first_body_with_id(bodies, edges[e].target@, t)
                && derived_from(r[e]->Some_0, bodies[s].position, bodies[t].position)
}

/// Some body carries the id `id`.
pub open spec fn has_body(bodies: Seq<Body>, id: Seq<char>) -> bool {
    exists|i: int| 0 <= i < bodies.len() && #[trigger] bodies[i].id@ == id
}

/// Some node with id `id` passes the project filter.
pub open spec fn is_visible_id(nodes: Seq<Node>, filter: Option<String>, id: Seq<char>) -> bool {
    exists|k: int|
        0 <= k < nodes.len() && #[trigger] nodes[k].id@ == id && passes_filter(nodes[k].project@, filter)
}

/// Number of nodes in `nodes` that pass the project filter.
pub open spec fn count_visible(nodes: Seq<Node>, filter: Option<String>) -> nat
    decreases nodes.len(),
{
    if nodes.len() == 0 {
        0
    } else {
        count_visible(nodes.drop_last(), filter) + if passes_filter(nodes.last().project@, filter) {
            1nat
        } else {
            0nat
        }
    }
}

/// Whether a body is kept when the nodes and the filter are as given.
pub open spec fn body_is_visible(nodes: Seq<Node>, filter: Option<String>) -> spec_fn(Body) -> bool {
    |b: Body| is_visible_id(nodes, filter, b.id@)
}

/// Whether some node with id `id` passes the filter.
pub fn visible_id(nodes: &Vec<Node>, filter: &Option<String>, id: &String) -> (r: bool)
    ensures
        r == is_visible_id(nodes@, *filter, id@),
{
    let mut k: usize = 0;
    while k < nodes.len()
        invariant
            k <= nodes@.len(),
            forall|j: int|
                0 <= j < k ==> !(#[trigger] nodes@[j].id@ == id@ && passes_filter(nodes@[j].project@, *filter)),
        decreases nodes@.len() - k,
    {
        if nodes[k].id.eq(id) && in_filter(&nodes[k].project, filter) {
            return true;
        }
        k = k + 1;
    }
    false
}

/// The body was spawned for a visible node `k`: same id and project, at rest,
/// at the ring position of `k`'s rank among the visible nodes.
pub open spec fn spawned_from(nodes: Seq<Node>, filter: Option<String>, b: Body) -> bool {
    exists|k: int|
        0 <= k < nodes.len() && passes_filter(nodes[k].project@, filter) && #[trigger] nodes[k].id@ == b.id@
            && nodes[k].project@ == b.project@ && b.velocity.is_zero() && b.position == ring_position(
            count_visible(nodes.take(k), filter) as int,
            count_visible(nodes, filter) as int,
        )
}

proof fn lemma_count_visible_prefix(nodes: Seq<Node>, filter: Option<String>, m: int, n: int)
    requires
        0 <= m <= n <= nodes.len(),
    ensures
        count_visible(nodes.take(m), filter) <= count_visible(nodes.take(n), filter),
    decreases n - m,
{
    if m < n {
        assert(nodes.take(n).drop_last() == nodes.take(n - 1));
        lemma_count_visible_prefix(nodes, filter, m, n - 1);
    }
}

/// Number of nodes that pass the filter.
pub fn visible_count(nodes: &Vec<Node>, filter: &Option<String>) -> (r: usize)
    ensures
        r == count_visible(nodes@, *filter),
{
    let mut r: usize = 0;
    let mut k: usize = 0;
    while k < nodes.len()
        invariant
            k <= nodes@.len(),
            r <= k,
            r == count_visible(nodes@.take(k as int), *filter),
        decreases nodes@.len() - k,
    {
        assert(nodes@.take(k + 1).drop_last() == nodes@.take(k as int));
        if in_filter(&nodes[k].project, filter) {
            r = r + 1;
        }
        k = k + 1;
    }
    assert(nodes@.take(k as int) == nodes@);
    r
}

impl LayoutEngine {
    /// Every body is bounded, and no two bodies carry one id.
    pub open spec fn wf(self) -> bool {
        &&& forall|i: int| 0 <= i < self.bodies@.len() ==> #[trigger] self.bodies@[i].bounded()
        &&& ids_distinct(self.bodies@)
    }

    pub fn new() -> (r: LayoutEngine)
        ensures
            r.wf(),
            r.bodies@.len() == 0,
    {
        LayoutEngine { bodies: Vec::new() }
    }

    /// Position of the first body with id `id`.
    pub fn body_index(&self, id: &String) -> (r: Option<usize>)
        ensures
            r is Some ==> is_first_body_with_id(self.bodies@, id@, r->Some_0 as int),
            r is None ==> !has_body(self.bodies@, id@),
    {
        let mut i: usize = 0;
        while i < self.bodies.len()
            invariant
                i <= self.bodies@.len(),
                forall|j: int| 0 <= j < i ==> #[trigger] self.bodies@[j].id@ != id@,
            decreases self.bodies@.len() - i,
        {
            if self.bodies[i].id.eq(id) {
                return Some(i);
            }
            i = i + 1;
        }
        None
    }



    /// Brings the bodies in line with the snapshot and the project filter: a
    /// body exists for a node exactly when the node passes the filter.
    pub fn sync_with(&mut self, nodes: &Vec<Node>, filter: &Option<String>)
        requires
            old(self).wf(),
        ensures
            final(self).wf(),
            forall|i: int|
                0 <= i < final(self).bodies@.len() ==> is_visible_id(
                    nodes@,
                    *filter,
                    #[trigger] final(self).bodies@[i].id@,
                ),
            forall|k: int|
                0 <= k < nodes@.len() && passes_filter(nodes@[k].project@, *filter) ==> has_body(
                    final(self).bodies@,
                    #[trigger] nodes@[k].id@,
                ),
    {
        node_destroyer(self, nodes, filter);
        let ghost kept = self.bodies@;
        proof {
            assert forall|i: int| 0 <= i < kept.len() implies is_visible_id(
                nodes@,
                *filter,
                #[trigger] kept[i].id@,
            ) by {
                old(self).bodies@.lemma_filter_pred(body_is_visible(nodes@, *filter), i);
            }
        }
        spawn_missing(self, nodes, filter);
        proof {
            assert forall|i: int|
                0 <= i < self.bodies@.len() implies is_visible_id(
                nodes@,
                *filter,
                #[trigger] self.bodies@[i].id@,
            ) by {
                if i < kept.len() {
                    assert(self.bodies@[i] == self.bodies@.take(kept.len() as int)[i]);
                } else {
                    assert(spawned_from(nodes@, *filter, self.bodies@[i]));
                }
            }
        }
    }

    /// The acceleration of body `i`: the pull toward the origin plus the push
    /// of every other body, weaker from bodies joined to it by an edge.
    pub fn acceleration_of(&self, edges: &Vec<Edge>, i: usize) -> (r: Vec3)
        requires
            self.wf(),
            i < self.bodies@.len(),
        ensures
            r.x == acceleration(self.bodies@, edges@, i as int, 0),
            r.y == acceleration(self.bodies@, edges@, i as int, 1),
            r.z == acceleration(self.bodies@, edges@, i as int, 2),
            -ACCEL_LIMIT <= r.x <= ACCEL_LIMIT,
            -ACCEL_LIMIT <= r.y <= ACCEL_LIMIT,
            -ACCEL_LIMIT <= r.z <= ACCEL_LIMIT,
    {
        let p = self.bodies[i].position;
        assert(self.bodies@[i as int].bounded());
        let a = attraction_of(p);
        let (mut ax, mut ay, mut az) = (a.x as i128, a.y as i128, a.z as i128);
        let mut j: usize = 0;
        while j < self.bodies.len()
            invariant
                self.wf(),
                i < self.bodies@.len(),
                j <= self.bodies@.len(),
                p == self.bodies@[i as int].position,
                p.in_world(),
                ax == accel_upto(self.bodies@, edges@, i as int, j as int, 0),
                ay == accel_upto(self.bodies@, edges@, i as int, j as int, 1),
                az == accel_upto(self.bodies@, edges@, i as int, j as int, 2),
                -ACCEL_LIMIT - j * PUSH_LIMIT <= ax <= ACCEL_LIMIT + j * PUSH_LIMIT,
                -ACCEL_LIMIT - j * PUSH_LIMIT <= ay <= ACCEL_LIMIT + j * PUSH_LIMIT,
                -ACCEL_LIMIT - j * PUSH_LIMIT <= az <= ACCEL_LIMIT + j * PUSH_LIMIT,
            decreases self.bodies@.len() - j,
        {
            if j != i {
                assert(self.bodies@[j as int].bounded());
                let c = are_connected(edges, &self.bodies[i].id, &self.bodies[j].id);
                let push = repulsion(p, self.bodies[j].position, c);
                ax = ax + push.x as i128;
                ay = ay + push.y as i128;
                az = az + push.z as i128;
            }
            j = j + 1;
        }
        Vec3 { x: clamp_wide(ax), y: clamp_wide(ay), z: clamp_wide(az) }
    }
}

/// Retires the bodies of nodes that are gone or outside the project filter.
pub fn node_destroyer(engine: &mut LayoutEngine, nodes: &Vec<Node>, filter: &Option<String>)
    requires
        old(engine).wf(),
    ensures
        final(engine).wf(),
        final(engine).bodies@ == old(engine).bodies@.filter(body_is_visible(nodes@, *filter)),
{
    let ghost pred = body_is_visible(nodes@, *filter);
    let mut kept: Vec<Body> = Vec::new();
    let mut i: usize = 0;
    while i < engine.bodies.len()
        invariant
            i <= engine.bodies@.len(),
            pred == body_is_visible(nodes@, *filter),
            kept@ == engine.bodies@.subrange(0, i as int).filter(pred),
            engine.wf(),
            forall|k: int| 0 <= k < kept@.len() ==> #[trigger] kept@[k].bounded(),
            forall|k: int|
                0 <= k < kept@.len() ==> exists|j: int| 0 <= j < i && #[trigger] kept@[k] == engine.bodies@[j],
            ids_distinct(kept@),
        decreases engine.bodies@.len() - i,
    {
        proof {
            let all = engine.bodies@;
            assert(all.subrange(0, i + 1) == all.subrange(0, i as int).push(all[i as int]));
            all.subrange(0, i as int).lemma_filter_push(all[i as int], pred);
        }
        if visible_id(nodes, filter, &engine.bodies[i].id) {
            let ghost before = kept@;
            kept.push(engine.bodies[i].duplicate());
            proof {
                let n = before.len() as int;
                assert forall|k: int| 0 <= k < kept@.len() implies exists|j: int|
                    0 <= j < i + 1 && #[trigger] kept@[k] == engine.bodies@[j] by {
                    if k < n {
                        assert(kept@[k] == before[k]);
                    } else {
                        assert(kept@[k] == engine.bodies@[i as int]);
                    }
                }
                assert forall|a: int, b: int|
                    0 <= a < b < kept@.len() implies (#[trigger] kept@[a]).id@ != (#[trigger] kept@[b]).id@ by {
                    assert(kept@[a] == before[a]);
                    if b < n {
                        assert(kept@[b] == before[b]);
                    } else {
                        let j = choose|j: int| 0 <= j < i && #[trigger] before[a] == engine.bodies@[j];
                        assert(engine.bodies@[j].id@ != engine.bodies@[i as int].id@);
                    }
                }
            }
        }
        i = i + 1;
    }
    assert(engine.bodies@.subrange(0, i as int) == engine.bodies@);
    engine.bodies = kept;
}

/// Spawns a body for every visible node that has none yet. The `n`-th of
/// the visible nodes starts at the `n`-th ring position, at rest; existing
/// bodies are kept as they are.
pub fn spawn_missing(engine: &mut LayoutEngine, nodes: &Vec<Node>, filter: &Option<String>)
    requires
        old(engine).wf(),
    ensures
        final(engine).wf(),
        spawn_result(old(engine).bodies@, final(engine).bodies@, nodes@, *filter),
        old(engine).bodies@.len() <= final(engine).bodies@.len(),
        final(engine).bodies@.take(old(engine).bodies@.len() as int) == old(engine).bodies@,
        forall|k: int|
            0 <= k < nodes@.len() && passes_filter(nodes@[k].project@, *filter) ==> has_body(
                final(engine).bodies@,
                #[trigger] nodes@[k].id@,
            ),
        forall|i: int|
            old(engine).bodies@.len() <= i < final(engine).bodies@.len() ==> spawned_from(
                nodes@,
                *filter,
                #[trigger] final(engine).bodies@[i],
            ) && !has_body(final(engine).bodies@.take(i), final(engine).bodies@[i].id@),
{
    let total = visible_count(nodes, filter);
    let ghost old_bodies = engine.bodies@;
    let mut rank: usize = 0;
    let mut k: usize = 0;
    while k < nodes.len()
        invariant
            k <= nodes@.len(),
            total == count_visible(nodes@, *filter),
            rank == count_visible(nodes@.take(k as int), *filter),
            engine.wf(),
            old_bodies.len() <= engine.bodies@.len(),
            engine.bodies@.take(old_bodies.len() as int) == old_bodies,
            forall|j: int|
                0 <= j < k && passes_filter(nodes@[j].project@, *filter) ==> has_body(
                    engine.bodies@,
                    #[trigger] nodes@[j].id@,
                ),
            forall|i: int|
                old_bodies.len() <= i < engine.bodies@.len() ==> spawned_from(
                    nodes@,
                    *filter,
                    #[trigger] engine.bodies@[i],
                ) && !has_body(engine.bodies@.take(i), engine.bodies@[i].id@),
        decreases nodes@.len() - k,
    {
        assert(nodes@.take(k + 1).drop_last() == nodes@.take(k as int));
        if in_filter(&nodes[k].project, filter) {
            proof {
                lemma_count_visible_prefix(nodes@, *filter, k + 1, nodes@.len() as int);
                assert(nodes@.take(nodes@.len() as int) == nodes@);
            }
            if engine.body_index(&nodes[k].id).is_none() {
                let position = initial_position(rank, total);
                let body = Body {
                    id: nodes[k].id.clone(),
                    project: nodes[k].project.clone(),
                    position,
                    velocity: Vec3::zero(),
                };
                let ghost before = engine.bodies@;
                engine.bodies.push(body);
                proof {
                    let n = before.len() as int;
                    assert(engine.bodies@.take(n) == before);
                    assert(engine.bodies@.take(old_bodies.len() as int) == before.take(old_bodies.len() as int));
                    assert(engine.bodies@[n].id@ == nodes@[k as int].id@);
                    assert(spawned_from(nodes@, *filter, engine.bodies@[n]));
                    assert forall|i: int|
                        0 <= i < engine.bodies@.len() implies #[trigger] engine.bodies@[i].bounded() by {
                        if i < n {
                            assert(engine.bodies@[i] == before[i]);
                        }
                    }
                    assert forall|j: int|
                        0 <= j <= k && passes_filter(nodes@[j].project@, *filter) implies has_body(
                        engine.bodies@,
                        #[trigger] nodes@[j].id@,
                    ) by {
                        if j < k {
                            let w = choose|w: int| 0 <= w < before.len() && #[trigger] before[w].id@ == nodes@[j].id@;
                            assert(engine.bodies@[w] == before[w]);
                        } else {
                            assert(engine.bodies@[n].id@ == nodes@[j].id@);
                        }
                    }
                    assert forall|i: int|
                        old_bodies.len() <= i < engine.bodies@.len() implies spawned_from(
                        nodes@,
                        *filter,
                        #[trigger] engine.bodies@[i],
                    ) && !has_body(engine.bodies@.take(i), engine.bodies@[i].id@) by {
                        if i < n {
                            assert(engine.bodies@[i] == before[i]);
                            assert(engine.bodies@.take(i) == before.take(i));
                        } else {
                            assert(engine.bodies@.take(i) == before);
                        }
                    }
                }
            }
            rank = rank + 1;
        }
        k = k + 1;
    }
}

/// Takes in a polled node collection and spawns bodies for it: a success
/// replaces the node list whole and marks the store connected, a failure
/// leaves the store as it was; then every node of the active project that
/// has no body gets one, as `spawn_missing` says.
pub fn node_spawner(engine: &mut LayoutEngine, store: &mut GraphStore, fetched: Result<Vec<Node>, FetchError>)
    requires
        old(engine).wf(),
    ensures
        final(engine).wf(),
        fetched is Ok ==> final(store).nodes@ == fetched->Ok_0@ && final(store).is_connected
            && (GraphStore {
            nodes: old(store).nodes,
            is_connected: old(store).is_connected,
            ..*final(store)
        }) == *old(store),
        fetched is Err ==> *final(store) == *old(store),
        spawn_result(old(engine).bodies@, final(engine).bodies@, final(store).nodes@, final(store).selected_project),
{
    store.apply_nodes(fetched);
    spawn_missing(engine, &store.nodes, &store.selected_project);
}

/// Advances the simulation by `dt_ms` milliseconds (at most `MAX_STEP_MS`):
/// every body's velocity takes its acceleration, computed from the
/// positions before the tick, is damped, comes to rest under
/// `REST_SPEED`, and moves the body. The state stays bounded.
pub fn handle_node_physics(engine: &mut LayoutEngine, edges: &Vec<Edge>, dt_ms: u64)
    requires
        old(engine).wf(),
    ensures
        final(engine).wf(),
        final(engine).bodies@.len() == old(engine).bodies@.len(),
        forall|i: int|
            0 <= i < final(engine).bodies@.len() ==> #[trigger] final(engine).bodies@[i] == stepped_body(
                old(engine).bodies@,
                edges@,
                i,
                step_ms(dt_ms),
            ),
{
    let dt: i64 = if dt_ms > MAX_STEP_MS { MAX_STEP_MS as i64 } else { dt_ms as i64 };
    let mut next: Vec<Body> = Vec::new();
    let mut i: usize = 0;
    while i < engine.bodies.len()
        invariant
            engine.wf(),
            i <= engine.bodies@.len(),
            dt == step_ms(dt_ms),
            0 <= dt <= 100,
            next@.len() == i,
            forall|k: int| 0 <= k < i ==> #[trigger] next@[k] == stepped_body(engine.bodies@, edges@, k, dt as int),
            forall|k: int| 0 <= k < i ==> #[trigger] next@[k].bounded(),
        decreases engine.bodies@.len() - i,
    {
        let a = engine.acceleration_of(edges, i);
        let b = &engine.bodies[i];
        assert(b.bounded());
        let vx = damp_axis(b.velocity.x, a.x, dt);
        let vy = damp_axis(b.velocity.y, a.y, dt);
        let vz = damp_axis(b.velocity.z, a.z, dt);
        let (wx, wy, wz) = (vx as i128, vy as i128, vz as i128);
        assert(0 <= wx * wx <= 10_000_000_000_000_000_000_000 && 0 <= wy * wy
            <= 10_000_000_000_000_000_000_000 && 0 <= wz * wz <= 10_000_000_000_000_000_000_000)
            by (nonlinear_arith)
            requires
                -100_000_000_000 <= wx <= 100_000_000_000,
                -100_000_000_000 <= wy <= 100_000_000_000,
                -100_000_000_000 <= wz <= 100_000_000_000,
        ;
        let v = if wx * wx + wy * wy + wz * wz < (REST_SPEED * REST_SPEED) as i128 {
            Vec3::zero()
        } else {
            Vec3 { x: vx, y: vy, z: vz }
        };
        let position = Vec3 {
            x: move_axis(b.position.x, v.x, dt),
            y: move_axis(b.position.y, v.y, dt),
            z: move_axis(b.position.z, v.z, dt),
        };
        let nb = Body { id: b.id.clone(), project: b.project.clone(), position, velocity: v };
        assert(nb == stepped_body(engine.bodies@, edges@, i as int, dt as int));
        next.push(nb);
        i = i + 1;
    }
    engine.bodies = next;
}

/// The geometry of every edge, in the order of `edges`: `None` for an edge
/// whose source or target has no body, otherwise the capsule between the
/// first bodies that carry the two endpoint ids.
pub fn edge_geometries(engine: &LayoutEngine, edges: &Vec<Edge>) -> (r: Vec<Option<EdgeGeometry>>)
    requires
        engine.wf(),
    ensures
        r@.len() == edges@.len(),
        forall|e: int|
            0 <= e < edges@.len() ==> ((#[trigger] r@[e]) is None <==> (!has_body(
                engine.bodies@,
                edges@[e].source@,
            ) || !has_body(engine.bodies@, edges@[e].target@))),
        forall|e: int|
            0 <= e < edges@.len() && (#[trigger] r@[e]) is Some ==> exists|s: int, t: int|
                is_first_body_with_id(engine.bodies@, edges@[e].source@, s) && is_first_body_with_id(
                    engine.bodies@,
                    edges@[e].target@,
                    t,
                ) && derived_from(r@[e]->Some_0, engine.bodies@[s].position, engine.bodies@[t].position),
        geometry_result(engine.bodies@, edges@, r@),
{
    let mut r: Vec<Option<EdgeGeometry>> = Vec::new();
    let mut e: usize = 0;
    while e < edges.len()
        invariant
            engine.wf(),
            e <= edges@.len(),
            r@.len() == e,
            forall|f: int|
                0 <= f < e ==> ((#[trigger] r@[f]) is None <==> (!has_body(engine.bodies@, edges@[f].source@)
                    || !has_body(engine.bodies@, edges@[f].target@))),
            forall|f: int|
                0 <= f < e && (#[trigger] r@[f]) is Some ==> exists|s: int, t: int|
                    is_first_body_with_id(engine.bodies@, edges@[f].source@, s) && is_first_body_with_id(
                        engine.bodies@,
                        edges@[f].target@,
                        t,
                    ) && derived_from(r@[f]->Some_0, engine.bodies@[s].position, engine.bodies@[t].position),
        decreases edges@.len() - e,
    {
        let source = engine.body_index(&edges[e].source);
        let target = engine.body_index(&edges[e].target);
        match (source, target) {
            (Some(s), Some(t)) => {
                assert(engine.bodies@[s as int].bounded());
                assert(engine.bodies@[t as int].bounded());
                let g = resolve_edge_geometry(engine.bodies[s].position, engine.bodies[t].position);
                let ghost before = r@;
                r.push(Some(g));
                proof {
                    assert(derived_from(g, engine.bodies@[s as int].position, engine.bodies@[t as int].position));
                    assert forall|f: int|
                        0 <= f <= e && (#[trigger] r@[f]) is Some implies exists|s: int, t: int|
                            is_first_body_with_id(engine.bodies@, edges@[f].source@, s) && is_first_body_with_id(
                                engine.bodies@,
                                edges@[f].target@,
                                t,
                            ) && derived_from(r@[f]->Some_0, engine.bodies@[s].position, engine.bodies@[t].position) by {
                        if f < e {
                            assert(r@[f] == before[f]);
                        } else {
                            assert(r@[f] == Some(g));
                            assert(is_first_body_with_id(engine.bodies@, edges@[f].source@, s as int)
                                && is_first_body_with_id(engine.bodies@, edges@[f].target@, t as int)
                                && derived_from(r@[f]->Some_0, engine.bodies@[s as int].position, engine.bodies@[t as int].position));
                        }
                    }
                }
            },
            _ => {
                let ghost before = r@;
                r.push(None);
                proof {
                    assert forall|f: int| 0 <= f < e implies #[trigger] r@[f] == before[f] by {}
                }
            },
        }
        e = e + 1;
    }
    r
}

/// One frame of the edges: the geometry of every edge of the store, as
/// `edge_geometries` says, and the edge records of the current hover
/// published again; nothing else of the store changes.
pub fn run_edge_controller(engine: &LayoutEngine, store: &mut GraphStore) -> (r: Vec<Option<EdgeGeometry>>)
    requires
        engine.wf(),
    ensures
        geometry_result(engine.bodies@, old(store).edges@, r@),
        final(store).hovered_edges@ == hovered_edge_records(old(store).edges@, old(store).hover),
        (GraphStore { hovered_edges: old(store).hovered_edges, ..*final(store) }) == *old(store),
{
    let r = edge_geometries(engine, &store.edges);
    store.publish_hovered_edges();
    r
}

} // verus!
