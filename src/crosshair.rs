//! The crosshair: an indicator that chases the tracked node, and falls back
//! to the first node of the active project when the tracked one is gone.
use vstd::prelude::*;
use crate::geometry::{Vec3, WORLD_LIMIT, trunc_div, dist_sq, lemma_trunc_div_bound};
use crate::store::{GraphStore, Node, is_first_in_filter, passes_filter, id_view};
use crate::layout::{Body, LayoutEngine, has_body, is_first_body_with_id, is_visible_id};

verus! {

/// Height above its node at which the crosshair rests: a tenth of a unit.
pub const CROSSHAIR_LIFT: i64 = 100_000;

/// Approach speed relative to the remaining distance: five times the distance
/// per second, that is five thousandths of it per millisecond.
pub const APPROACH_RATE: i64 = 5;

/// Distance below which the crosshair counts as arrived: a thousandth of a unit.
pub const ARRIVAL_EPSILON: i64 = 1000;

/// Idle spin in milliradians per second.
pub const SPIN_RATE: u64 = 1000;

/// One full turn in milliradians, rounded.
pub const FULL_TURN: u64 = 6283;

/// Largest magnitude of a crosshair coordinate.
pub const CROSSHAIR_LIMIT: i64 = 2 * WORLD_LIMIT;

/// The indicator object and its idle spin angle.
pub struct CrosshairController {
    pub position: Vec3,
    /// Rotation about the vertical axis, in milliradians.
    pub spin: u64,
}

/// Id of the first node that passes the filter, if any.
pub open spec fn first_visible_id(nodes: Seq<Node>, filter: Option<String>) -> Option<Seq<char>> {
    if exists|i: int| is_first_in_filter(nodes, filter, i) {
        Some(nodes[choose|i: int| is_first_in_filter(nodes, filter, i)].id@)
    } else {
        None
    }
}

/// What the crosshair tracks after a tick: the tracked node while it has a
/// body, otherwise the first node of the active project, or nothing.
pub open spec fn next_target(
    bodies: Seq<Body>,
    nodes: Seq<Node>,
    filter: Option<String>,
    current: Option<String>,
) -> Option<Seq<char>> {
    match current {
        Some(id) => if has_body(bodies, id@) {
            Some(id@)
        } else {
            first_visible_id(nodes, filter)
        },
        None => first_visible_id(nodes, filter),
    }
}

/// Thousandths of the remaining distance covered in a tick of `dt` ms: in
/// proportion to the elapsed time, and never more than all of it.
pub open spec fn approach_share(dt: int) -> int {
    if APPROACH_RATE * dt > 1000 {
        1000
    } else {
        APPROACH_RATE * dt
    }
}

/// The move of the crosshair from `from` toward `to` in a tick of `dt` ms;
/// none once it is within `ARRIVAL_EPSILON`.
pub open spec fn approach_step(from: Vec3, to: Vec3, dt: int) -> Vec3 {
    if dist_sq(from, to) > ARRIVAL_EPSILON * ARRIVAL_EPSILON {
        Vec3 {
            x: trunc_div((to.x - from.x) * approach_share(dt), 1000) as i64,
            y: trunc_div((to.y - from.y) * approach_share(dt), 1000) as i64,
            z: trunc_div((to.z - from.z) * approach_share(dt), 1000) as i64,
        }
    } else {
        Vec3 { x: 0, y: 0, z: 0 }
    }
}

impl CrosshairController {
    pub open spec fn wf(self) -> bool {
        -CROSSHAIR_LIMIT <= self.position.x <= CROSSHAIR_LIMIT && -CROSSHAIR_LIMIT <= self.position.y
            <= CROSSHAIR_LIMIT && -CROSSHAIR_LIMIT <= self.position.z <= CROSSHAIR_LIMIT && self.spin
            < FULL_TURN
    }
}

/// One coordinate of the approach toward the target.
fn approach_axis(from: i64, to: i64, share: i64) -> (r: i64)
    requires
        -CROSSHAIR_LIMIT <= from <= CROSSHAIR_LIMIT,
        -CROSSHAIR_LIMIT <= to <= CROSSHAIR_LIMIT,
        0 <= share <= 1000,
    ensures
        r == trunc_div((to - from) * share, 1000),
        to >= from ==> 0 <= r <= to - from,
        to <= from ==> to - from <= r <= 0,
{
    let d: i64 = to - from;
    if d >= 0 {
        assert(0 <= d * share <= d * 1000) by (nonlinear_arith)
            requires
                d >= 0,
                0 <= share <= 1000,
        ;
        proof {
            lemma_trunc_div_bound(d * share, 1000, d as int);
        }
    } else {
        assert(d * 1000 <= d * share <= 0) by (nonlinear_arith)
            requires
                d < 0,
                0 <= share <= 1000,
        ;
        proof {
            lemma_trunc_div_bound(d * share, 1000, -d);
        }
    }
    d * share / 1000
}

/// The move of the crosshair toward `to`; it never overshoots.
pub fn approach(from: Vec3, to: Vec3, dt: u64) -> (r: Vec3)
    requires
        -CROSSHAIR_LIMIT <= from.x <= CROSSHAIR_LIMIT,
        -CROSSHAIR_LIMIT <= from.y <= CROSSHAIR_LIMIT,
        -CROSSHAIR_LIMIT <= from.z <= CROSSHAIR_LIMIT,
        -CROSSHAIR_LIMIT <= to.x <= CROSSHAIR_LIMIT,
        -CROSSHAIR_LIMIT <= to.y <= CROSSHAIR_LIMIT,
        -CROSSHAIR_LIMIT <= to.z <= CROSSHAIR_LIMIT,
    ensures
        r == approach_step(from, to, dt as int),
        to.x >= from.x ==> 0 <= r.x <= to.x - from.x,
        to.x <= from.x ==> to.x - from.x <= r.x <= 0,
        to.y >= from.y ==> 0 <= r.y <= to.y - from.y,
        to.y <= from.y ==> to.y - from.y <= r.y <= 0,
        to.z >= from.z ==> 0 <= r.z <= to.z - from.z,
        to.z <= from.z ==> to.z - from.z <= r.z <= 0,
{
    let dx: i64 = to.x - from.x;
    let dy: i64 = to.y - from.y;
    let dz: i64 = to.z - from.z;
    let (wx, wy, wz) = (dx as i128, dy as i128, dz as i128);
    assert(0 <= wx * wx <= 16_000_000_000_000_000_000 && 0 <= wy * wy <= 16_000_000_000_000_000_000 && 0
        <= wz * wz <= 16_000_000_000_000_000_000) by (nonlinear_arith)
        requires
            -4_000_000_000 <= wx <= 4_000_000_000,
            -4_000_000_000 <= wy <= 4_000_000_000,
            -4_000_000_000 <= wz <= 4_000_000_000,
    ;
    if wx * wx + wy * wy + wz * wz <= (ARRIVAL_EPSILON * ARRIVAL_EPSILON) as i128 {
        return Vec3::zero();
    }
    let share: i64 = if dt > 200 { 1000 } else { APPROACH_RATE * dt as i64 };
    Vec3 {
        x: approach_axis(from.x, to.x, share),
        y: approach_axis(from.y, to.y, share),
        z: approach_axis(from.z, to.z, share),
    }
}

/// The spin angle after `dt` milliseconds of idle rotation.
pub open spec fn spun(spin: int, dt: int) -> int {
    (spin + (SPIN_RATE * dt) / 1000) % (FULL_TURN as int)
}

/// The crosshair at start: a lift above the origin, not turned.
pub fn spawn_crosshair() -> (r: CrosshairController)
    ensures
        r.wf(),
        r.position == (Vec3 { x: 0, y: CROSSHAIR_LIFT, z: 0 }),
        r.spin == 0,
{
    CrosshairController { position: Vec3 { x: 0, y: CROSSHAIR_LIFT, z: 0 }, spin: 0 }
}

/// One tick of the crosshair. A tracked node that still has a body is
/// chased: the crosshair moves toward a lift above it, and the returned
/// move is what a following camera (its eye and its look-at target) is
/// moved by too. A tracked node without a body, or no tracked node,
/// makes the crosshair track the first node of the active project (or
/// nothing) and stay put this tick. The idle spin turns regardless.
pub fn run_crosshair_controller(
    crosshair: &mut CrosshairController,
    store: &mut GraphStore,
    engine: &LayoutEngine,
    dt_ms: u64,
) -> (moved: Vec3)
    requires
        old(crosshair).wf(),
        engine.wf(),
    ensures
        final(crosshair).wf(),
        id_view(final(store).crosshair.selected_id) == next_target(
            engine.bodies@,
            old(store).nodes@,
            old(store).selected_project,
            old(store).crosshair.selected_id,
        ),
        (GraphStore { crosshair: old(store).crosshair, ..*final(store) }) == *old(store),
        final(crosshair).spin == spun(old(crosshair).spin as int, dt_ms as int),
        final(crosshair).position.x == old(crosshair).position.x + moved.x,
        final(crosshair).position.y == old(crosshair).position.y + moved.y,
        final(crosshair).position.z == old(crosshair).position.z + moved.z,
        match old(store).crosshair.selected_id {
            Some(id) => if has_body(engine.bodies@, id@) {
                exists|i: int|
                    is_first_body_with_id(engine.bodies@, id@, i) && moved == approach_step(
                        old(crosshair).position,
                        Vec3 {
                            x: engine.bodies@[i].position.x,
                            y: (engine.bodies@[i].position.y + CROSSHAIR_LIFT) as i64,
                            z: engine.bodies@[i].position.z,
                        },
                        dt_ms as int,
                    )
            } else {
                moved.is_zero()
            },
            None => moved.is_zero(),
        },
{
    let mut moved = Vec3::zero();
    let mut fall_back = true;
    match &store.crosshair.selected_id {
        Some(id) => {
            if let Some(i) = engine.body_index(id) {
                assert(engine.bodies@[i as int].bounded());
                let p = engine.bodies[i].position;
                let to = Vec3 { x: p.x, y: p.y + CROSSHAIR_LIFT, z: p.z };
                moved = approach(crosshair.position, to, dt_ms);
                crosshair.position = Vec3 {
                    x: crosshair.position.x + moved.x,
                    y: crosshair.position.y + moved.y,
                    z: crosshair.position.z + moved.z,
                };
                fall_back = false;
            }
        },
        None => {},
    }
    if fall_back {
        let first = store.first_node_in_filter();
        proof {
            if first is Some {
                let w = choose|i: int| is_first_in_filter(store.nodes@, store.selected_project, i)
                    && store.nodes@[i].id@ == first->Some_0@;
                let c = choose|i: int| is_first_in_filter(store.nodes@, store.selected_project, i);
                assert(w == c);
            } else {
                assert(!exists|i: int| is_first_in_filter(store.nodes@, store.selected_project, i));
            }
        }
        store.crosshair.selected_id = first;
    }
    let turn: u128 = SPIN_RATE as u128 * dt_ms as u128 / 1000;
    crosshair.spin = ((crosshair.spin as u128 + turn) % FULL_TURN as u128) as u64;
    moved
}

proof fn lemma_first_in_filter_exists(nodes: Seq<Node>, filter: Option<String>, k: int)
    requires
        0 <= k < nodes.len(),
        passes_filter(nodes[k].project@, filter),
    ensures
        exists|i: int| is_first_in_filter(nodes, filter, i),
    decreases k,
{
    if exists|j: int| 0 <= j < k && passes_filter(nodes[j].project@, filter) {
        let j = choose|j: int| 0 <= j < k && passes_filter(nodes[j].project@, filter);
        lemma_first_in_filter_exists(nodes, filter, j);
    } else {
        assert(is_first_in_filter(nodes, filter, k));
    }
}

/// Once the bodies match the snapshot and the project filter, a tracked node
/// that no longer passes the filter is let go at the next tick: the crosshair
/// then tracks the first node that passes the filter, and nothing exactly
/// when no node passes it.
pub proof fn crosshair_falls_back(
    bodies: Seq<Body>,
    nodes: Seq<Node>,
    filter: Option<String>,
    current: String,
)
    requires
        forall|i: int| 0 <= i < bodies.len() ==> is_visible_id(nodes, filter, #[trigger] bodies[i].id@),
        !is_visible_id(nodes, filter, current@),
    ensures
        next_target(bodies, nodes, filter, Some(current)) == first_visible_id(nodes, filter),
        first_visible_id(nodes, filter) is None <==> forall|k: int|
            0 <= k < nodes.len() ==> !passes_filter(#[trigger] nodes[k].project@, filter),
        first_visible_id(nodes, filter) is Some ==> exists|i: int|
            is_first_in_filter(nodes, filter, i) && nodes[i].id@ == first_visible_id(nodes, filter)->Some_0,
{
    if has_body(bodies, current@) {
        let i = choose|i: int| 0 <= i < bodies.len() && #[trigger] bodies[i].id@ == current@;
        assert(is_visible_id(nodes, filter, bodies[i].id@));
    }
    if exists|k: int| 0 <= k < nodes.len() && passes_filter(#[trigger] nodes[k].project@, filter) {
        let k = choose|k: int| 0 <= k < nodes.len() && passes_filter(#[trigger] nodes[k].project@, filter);
        lemma_first_in_filter_exists(nodes, filter, k);
    }
}

} // verus!
