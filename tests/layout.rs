use atlas::geometry::Vec3;
use atlas::layout::{
    edge_geometries, handle_node_physics, initial_position, node_spawner, run_edge_controller,
    visible_count, visible_id, Body, LayoutEngine,
};
use atlas::picking::RayHit;
use atlas::store::{FetchError, GraphStore};
use atlas::store::{Edge, Node};

fn node(project: &str, id: &str) -> Node {
    Node { project: project.to_string(), id: id.to_string() }
}

fn body(id: &str, x: i64, y: i64, z: i64) -> Body {
    Body {
        id: id.to_string(),
        project: "p".to_string(),
        position: Vec3::new(x, y, z),
        velocity: Vec3::zero(),
    }
}

fn edge(source: &str, target: &str) -> Edge {
    Edge {
        project: "p".to_string(),
        id: format!("{}-{}", source, target),
        source: source.to_string(),
        target: target.to_string(),
    }
}

#[test]
fn ring_positions() {
    assert_eq!(initial_position(0, 1), Vec3::new(300_000, 500_000, 0));
    assert_eq!(initial_position(1, 2), Vec3::new(-599_999, 499_788, -255));
    assert_eq!(initial_position(0, 4), Vec3::new(1_200_000, 500_000, 0));
    assert_eq!(initial_position(1, 4), Vec3::new(5, 999_999, 1_199_999));
    assert_eq!(initial_position(5, 12), Vec3::new(-3_117_468, 750_053, 1_800_386));
}

#[test]
fn ring_positions_are_distinct() {
    let total = 3000;
    let points: Vec<Vec3> = (0..total).map(|i| initial_position(i, total)).collect();
    for i in 0..total {
        for j in 0..i {
            assert_ne!(points[i], points[j]);
        }
    }
}

#[test]
fn ring_radius_is_capped_by_the_world() {
    let p = initial_position(5000, 10000);
    assert!(p.x.abs() <= 1_000_000_000 && p.z.abs() <= 1_000_000_000);
}

#[test]
fn bodies_follow_the_filter() {
    let nodes = vec![node("p1", "a"), node("p2", "b"), node("p1", "c")];
    let mut engine = LayoutEngine::new();
    engine.sync_with(&nodes, &Some("p1".to_string()));
    let ids: Vec<&str> = engine.bodies.iter().map(|b| b.id.as_str()).collect();
    assert_eq!(ids, vec!["a", "c"]);
    assert_eq!(engine.bodies[0].position, initial_position(0, 2));
    assert_eq!(engine.bodies[1].position, initial_position(1, 2));
    engine.bodies[0].position = Vec3::new(7, 8, 9);
    engine.sync_with(&nodes, &None);
    let ids: Vec<&str> = engine.bodies.iter().map(|b| b.id.as_str()).collect();
    assert_eq!(ids, vec!["a", "c", "b"]);
    assert_eq!(engine.bodies[0].position, Vec3::new(7, 8, 9));
    assert_eq!(engine.bodies[2].position, initial_position(1, 3));
    engine.sync_with(&nodes, &Some("p2".to_string()));
    let ids: Vec<&str> = engine.bodies.iter().map(|b| b.id.as_str()).collect();
    assert_eq!(ids, vec!["b"]);
}

#[test]
fn duplicate_node_ids_spawn_one_body() {
    let nodes = vec![node("p", "a"), node("p", "a")];
    let mut engine = LayoutEngine::new();
    engine.sync_with(&nodes, &None);
    assert_eq!(engine.bodies.len(), 1);
}

#[test]
fn vanished_nodes_are_retired() {
    let mut engine = LayoutEngine::new();
    engine.sync_with(&vec![node("p", "a"), node("p", "b")], &None);
    engine.sync_with(&vec![node("p", "b")], &None);
    assert_eq!(engine.bodies.len(), 1);
    assert_eq!(engine.bodies[0].id, "b");
    assert_eq!(engine.body_index(&"b".to_string()), Some(0));
    assert_eq!(engine.body_index(&"a".to_string()), None);
}

#[test]
fn visibility_helpers() {
    let nodes = vec![node("p1", "a"), node("p2", "b"), node("p1", "c")];
    assert_eq!(visible_count(&nodes, &Some("p1".to_string())), 2);
    assert_eq!(visible_count(&nodes, &None), 3);
    assert!(visible_id(&nodes, &Some("p2".to_string()), &"b".to_string()));
    assert!(!visible_id(&nodes, &Some("p2".to_string()), &"a".to_string()));
}

#[test]
fn lone_node_is_pulled_toward_the_origin() {
    let mut engine = LayoutEngine { bodies: vec![body("a", 1_000_000_000, 0, 0)] };
    handle_node_physics(&mut engine, &vec![], 100);
    assert_eq!(engine.bodies[0].velocity, Vec3::new(-1_700_000_000, 0, 0));
    assert_eq!(engine.bodies[0].position, Vec3::new(830_000_000, 0, 0));
}

#[test]
fn long_frames_are_integrated_as_the_longest_step() {
    let mut a = LayoutEngine { bodies: vec![body("a", 1_000_000_000, 0, 0)] };
    let mut b = LayoutEngine { bodies: vec![body("a", 1_000_000_000, 0, 0)] };
    handle_node_physics(&mut a, &vec![], 100);
    handle_node_physics(&mut b, &vec![], 5000);
    assert_eq!(a.bodies[0].position, b.bodies[0].position);
    assert_eq!(a.bodies[0].velocity, b.bodies[0].velocity);
}

#[test]
fn slow_bodies_come_to_rest() {
    let mut engine = LayoutEngine { bodies: vec![body("a", 100, 0, 0)] };
    handle_node_physics(&mut engine, &vec![], 100);
    assert_eq!(engine.bodies[0].velocity, Vec3::zero());
    assert_eq!(engine.bodies[0].position, Vec3::new(100, 0, 0));
}

#[test]
fn connected_pair_repels_less_than_unconnected_pair() {
    let free = LayoutEngine { bodies: vec![body("a", -1_000_000, 0, 0), body("b", 1_000_000, 0, 0)] };
    let joined = vec![edge("b", "a")];
    let a_free = free.acceleration_of(&vec![], 0);
    let a_joined = free.acceleration_of(&joined, 0);
    // pull toward the origin of 20_000_000, push away of 30_000_000 or 15_000_000
    assert_eq!(a_free, Vec3::new(-10_000_000, 0, 0));
    assert_eq!(a_joined, Vec3::new(5_000_000, 0, 0));
    assert_eq!(free.acceleration_of(&vec![], 1), Vec3::new(10_000_000, 0, 0));
}

#[test]
fn close_pairs_use_the_minimum_distance() {
    let engine = LayoutEngine { bodies: vec![body("a", 0, 0, 0), body("b", 100_000, 0, 0)] };
    // 60_000_000_000_000 / 600_000 = 100_000_000; -100_000 * 100_000_000 / 100_000
    assert_eq!(engine.acceleration_of(&vec![], 0), Vec3::new(-100_000_000, 0, 0));
}

#[test]
fn coincident_bodies_do_not_push() {
    let engine = LayoutEngine { bodies: vec![body("a", 500_000, 0, 0), body("b", 500_000, 0, 0)] };
    assert_eq!(engine.acceleration_of(&vec![], 0), Vec3::new(-10_000_000, 0, 0));
}

fn total_speed(engine: &LayoutEngine) -> i64 {
    engine
        .bodies
        .iter()
        .map(|b| b.velocity.x.abs() + b.velocity.y.abs() + b.velocity.z.abs())
        .sum()
}

#[test]
fn layout_settles_and_stays_bounded() {
    let nodes: Vec<Node> = (0..12).map(|i| node("p", &format!("n{}", i))).collect();
    let edges = vec![edge("n0", "n1"), edge("n1", "n2"), edge("n3", "n4")];
    let mut engine = LayoutEngine::new();
    engine.sync_with(&nodes, &None);
    let mut rest_tick = None;
    for t in 0..6000 {
        handle_node_physics(&mut engine, &edges, 16);
        for b in engine.bodies.iter() {
            assert!(b.position.x.abs() <= 1_000_000_000);
            assert!(b.position.y.abs() <= 1_000_000_000);
            assert!(b.position.z.abs() <= 1_000_000_000);
        }
        if total_speed(&engine) == 0 {
            rest_tick = Some(t);
            break;
        }
    }
    assert!(rest_tick.is_some());
    let settled: Vec<Vec3> = engine.bodies.iter().map(|b| b.position).collect();
    for _ in 0..100 {
        handle_node_physics(&mut engine, &edges, 16);
    }
    let later: Vec<Vec3> = engine.bodies.iter().map(|b| b.position).collect();
    assert_eq!(settled, later);
    assert_eq!(total_speed(&engine), 0);
}

#[test]
fn edge_geometry_skips_dangling_edges() {
    let engine = LayoutEngine { bodies: vec![body("a", 0, 0, 0), body("b", 2000, 0, 0)] };
    let edges = vec![edge("a", "b"), edge("a", "zz"), edge("b", "b")];
    let g = edge_geometries(&engine, &edges);
    assert_eq!(g.len(), 3);
    let first = g[0].unwrap();
    assert_eq!(first.midpoint, Vec3::new(1000, 0, 0));
    assert_eq!(first.length, 2000);
    assert!(g[1].is_none());
    assert_eq!(g[2].unwrap().axis, Vec3::new(0, 1_000_000, 0));
}

#[test]
fn positions_are_clamped_to_the_world() {
    let mut b = body("a", 1_000_000_000, 0, 0);
    b.velocity = Vec3::new(100_000_000_000, 0, 0);
    let mut engine = LayoutEngine { bodies: vec![b] };
    handle_node_physics(&mut engine, &vec![], 100);
    assert_eq!(engine.bodies[0].velocity, Vec3::new(83_300_000_000, 0, 0));
    assert_eq!(engine.bodies[0].position, Vec3::new(1_000_000_000, 0, 0));
}

#[test]
fn empty_layout_ticks() {
    let mut engine = LayoutEngine::new();
    engine.sync_with(&vec![], &None);
    handle_node_physics(&mut engine, &vec![edge("a", "b")], 16);
    assert!(engine.bodies.is_empty());
    assert_eq!(edge_geometries(&engine, &vec![edge("a", "b")]), vec![None]);
}

#[test]
fn node_spawner_takes_the_polled_nodes() {
    let mut store = GraphStore::new();
    let mut engine = LayoutEngine::new();
    node_spawner(&mut engine, &mut store, Ok(vec![node("p", "a")]));
    assert!(store.is_connected);
    assert_eq!(store.nodes.len(), 1);
    assert_eq!(engine.bodies.len(), 1);
    assert_eq!(engine.bodies[0].id, "a");
    assert_eq!(engine.bodies[0].position, Vec3::new(300_000, 500_000, 0));
    node_spawner(&mut engine, &mut store, Err(FetchError::Unreachable));
    assert_eq!(store.nodes.len(), 1);
    assert_eq!(engine.bodies.len(), 1);
    node_spawner(&mut engine, &mut store, Ok(vec![node("p", "a"), node("p", "b")]));
    assert_eq!(engine.bodies.len(), 2);
    assert_eq!(engine.bodies[0].position, Vec3::new(300_000, 500_000, 0));
    assert_eq!(engine.bodies[1].id, "b");
    node_spawner(&mut engine, &mut store, Ok(vec![]));
    assert!(store.nodes.is_empty());
}

#[test]
fn edge_controller_publishes_hovered_edges() {
    let mut store = GraphStore::new();
    store.apply_nodes(Ok(vec![node("p", "a"), node("p", "b")]));
    store.apply_edges(Ok(vec![edge("a", "b")]));
    let mut engine = LayoutEngine::new();
    engine.sync_with(&store.nodes.iter().map(|n| n.duplicate()).collect(), &None);
    store.update_hover(true, None, Some(RayHit { id: "a-b".to_string(), distance: 3 }));
    store.hovered_edges.clear();
    let g = run_edge_controller(&engine, &mut store);
    assert_eq!(g.len(), 1);
    assert!(g[0].is_some());
    assert_eq!(store.hovered_edges.len(), 1);
    assert_eq!(store.hovered_edges[0].id, "a-b");
    store.update_hover(true, None, None);
    run_edge_controller(&engine, &mut store);
    assert!(store.hovered_edges.is_empty());
}
