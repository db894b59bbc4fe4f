use atlas::crosshair::{approach, run_crosshair_controller, spawn_crosshair};
use atlas::geometry::Vec3;
use atlas::layout::{Body, LayoutEngine};
use atlas::store::{GraphStore, Node};

fn body(id: &str, x: i64, y: i64, z: i64) -> Body {
    Body {
        id: id.to_string(),
        project: "p".to_string(),
        position: Vec3::new(x, y, z),
        velocity: Vec3::zero(),
    }
}

fn store_with(nodes: &[(&str, &str)]) -> GraphStore {
    let mut s = GraphStore::new();
    s.apply_nodes(Ok(nodes
        .iter()
        .map(|(p, id)| Node { project: p.to_string(), id: id.to_string() })
        .collect()));
    s
}

#[test]
fn crosshair_chases_tracked_node() {
    let mut store = store_with(&[("p", "a")]);
    store.crosshair.selected_id = Some("a".to_string());
    let engine = LayoutEngine { bodies: vec![body("a", 1_000_000, 0, 0)] };
    let mut c = spawn_crosshair();
    let moved = run_crosshair_controller(&mut c, &mut store, &engine, 100);
    assert_eq!(moved, Vec3::new(500_000, 0, 0));
    assert_eq!(c.position, Vec3::new(500_000, 100_000, 0));
    assert_eq!(store.crosshair.selected_id, Some("a".to_string()));
    let moved = run_crosshair_controller(&mut c, &mut store, &engine, 1000);
    assert_eq!(moved, Vec3::new(500_000, 0, 0));
    assert_eq!(c.position, Vec3::new(1_000_000, 100_000, 0));
    let moved = run_crosshair_controller(&mut c, &mut store, &engine, 1000);
    assert_eq!(moved, Vec3::zero());
}

#[test]
fn approach_never_overshoots() {
    let to = Vec3::new(-999_000, 10_000, 3);
    assert_eq!(approach(Vec3::zero(), to, 1_000_000), to);
    assert_eq!(approach(Vec3::zero(), to, 10), Vec3::new(-49_950, 500, 0));
    assert_eq!(approach(Vec3::zero(), Vec3::new(1000, 0, 0), 100), Vec3::zero());
    assert_eq!(approach(Vec3::zero(), Vec3::new(1001, 0, 0), 100), Vec3::new(500, 0, 0));
}

#[test]
fn crosshair_falls_back_to_first_node_in_filter() {
    let mut store = store_with(&[("p1", "a"), ("p2", "b"), ("p2", "c")]);
    store.selected_project = Some("p2".to_string());
    store.crosshair.selected_id = Some("a".to_string());
    let mut engine = LayoutEngine::new();
    let nodes = store.nodes.iter().map(|n| n.duplicate()).collect();
    engine.sync_with(&nodes, &store.selected_project);
    let mut c = spawn_crosshair();
    let moved = run_crosshair_controller(&mut c, &mut store, &engine, 16);
    assert_eq!(moved, Vec3::zero());
    assert_eq!(store.crosshair.selected_id, Some("b".to_string()));
}

#[test]
fn crosshair_unset_when_filter_is_empty() {
    let mut store = store_with(&[("p1", "a")]);
    store.selected_project = Some("p9".to_string());
    store.crosshair.selected_id = Some("a".to_string());
    let engine = LayoutEngine::new();
    let mut c = spawn_crosshair();
    run_crosshair_controller(&mut c, &mut store, &engine, 16);
    assert_eq!(store.crosshair.selected_id, None);
}

#[test]
fn crosshair_picks_a_target_when_none_is_set() {
    let mut store = store_with(&[("p1", "a"), ("p1", "b")]);
    let engine = LayoutEngine::new();
    let mut c = spawn_crosshair();
    run_crosshair_controller(&mut c, &mut store, &engine, 16);
    assert_eq!(store.crosshair.selected_id, Some("a".to_string()));
}

#[test]
fn crosshair_spins_and_wraps() {
    let mut store = GraphStore::new();
    let engine = LayoutEngine::new();
    let mut c = spawn_crosshair();
    run_crosshair_controller(&mut c, &mut store, &engine, 1000);
    assert_eq!(c.spin, 1000);
    run_crosshair_controller(&mut c, &mut store, &engine, 6000);
    assert_eq!(c.spin, 717);
}

#[test]
fn crosshair_spins_over_very_long_frames() {
    let mut store = GraphStore::new();
    let engine = LayoutEngine::new();
    let mut c = spawn_crosshair();
    run_crosshair_controller(&mut c, &mut store, &engine, u64::MAX);
    // one milliradian per millisecond
    assert_eq!(c.spin, (u64::MAX % 6283) as u64);
}
