use atlas::picking::{
    cursor_in_render_area, handle_node_click, panel_rects, picking_allowed, resolve_hover, HoverTarget,
    OccupiedScreenSpace, RayHit, ScreenRect,
};
use atlas::store::{Edge, GraphStore, Node};

fn hit(id: &str, distance: u64) -> Option<RayHit> {
    Some(RayHit { id: id.to_string(), distance })
}

fn store() -> GraphStore {
    let mut s = GraphStore::new();
    s.apply_nodes(Ok(vec![
        Node { project: "p".to_string(), id: "A".to_string() },
        Node { project: "p".to_string(), id: "B".to_string() },
    ]));
    s.apply_edges(Ok(vec![Edge {
        project: "p".to_string(),
        id: "E".to_string(),
        source: "A".to_string(),
        target: "B".to_string(),
    }]));
    s
}

#[test]
fn node_hit_wins_over_closer_edge_hit() {
    match resolve_hover(hit("A", 900), hit("E", 1)) {
        HoverTarget::Node(id) => assert_eq!(id, "A"),
        _ => panic!("expected a node hover"),
    }
    match resolve_hover(None, hit("E", 1)) {
        HoverTarget::Edge(id) => assert_eq!(id, "E"),
        _ => panic!("expected an edge hover"),
    }
    assert!(matches!(resolve_hover(None, None), HoverTarget::Nothing));
}

#[test]
fn published_hover_is_exclusive() {
    let mut s = store();
    s.update_hover(true, hit("A", 5), hit("E", 1));
    assert_eq!(s.hovered_nodes.len(), 1);
    assert_eq!(s.hovered_nodes[0].id, "A");
    assert!(s.hovered_edges.is_empty());
    s.update_hover(true, None, hit("E", 1));
    assert!(s.hovered_nodes.is_empty());
    assert_eq!(s.hovered_edges[0].id, "E");
    s.update_hover(true, None, None);
    assert!(s.hovered_nodes.is_empty() && s.hovered_edges.is_empty());
}

#[test]
fn suppressed_picking_keeps_hover() {
    let mut s = store();
    s.update_hover(true, hit("B", 5), None);
    s.update_hover(false, None, None);
    assert_eq!(s.hovered_nodes[0].id, "B");
}

#[test]
fn hover_of_unknown_node_publishes_nothing() {
    let mut s = store();
    s.update_hover(true, hit("Z", 5), None);
    assert!(s.hovered_nodes.is_empty());
}

#[test]
fn multi_select_accumulates() {
    let mut s = store();
    s.update_hover(true, hit("A", 1), None);
    handle_node_click(&mut s, true, true);
    s.update_hover(true, hit("B", 1), None);
    handle_node_click(&mut s, true, true);
    let ids: Vec<&str> = s.selected_nodes.iter().map(|n| n.id.as_str()).collect();
    assert_eq!(ids, vec!["A", "B"]);
    assert_eq!(s.crosshair.selected_id, Some("B".to_string()));
}

#[test]
fn plain_click_replaces_selection() {
    let mut s = store();
    s.update_hover(true, hit("A", 1), None);
    handle_node_click(&mut s, true, false);
    s.update_hover(true, hit("B", 1), None);
    handle_node_click(&mut s, true, false);
    let ids: Vec<&str> = s.selected_nodes.iter().map(|n| n.id.as_str()).collect();
    assert_eq!(ids, vec!["B"]);
}

#[test]
fn click_without_hover_or_press_does_nothing() {
    let mut s = store();
    handle_node_click(&mut s, true, false);
    assert!(s.selected_nodes.is_empty());
    s.update_hover(true, hit("A", 1), None);
    handle_node_click(&mut s, false, false);
    assert!(s.selected_nodes.is_empty());
    assert_eq!(s.crosshair.selected_id, None);
}

#[test]
fn picking_is_suppressed_while_dragging_or_over_panels() {
    let panels = vec![ScreenRect { left: 0, top: 0, right: 100, bottom: 600 }];
    assert!(picking_allowed(300, 300, false, &panels));
    assert!(!picking_allowed(300, 300, true, &panels));
    assert!(!picking_allowed(50, 300, false, &panels));
    assert!(picking_allowed(100, 300, false, &panels));
    assert!(picking_allowed(50, 300, false, &vec![]));
}

#[test]
fn panel_rects_cover_the_window_edges() {
    let occ = OccupiedScreenSpace { left: 100, top: 50, right: 200, bottom: 40 };
    let rects = panel_rects(800, 600, occ);
    assert_eq!(
        rects,
        vec![
            ScreenRect { left: 0, top: 0, right: 100, bottom: 600 },
            ScreenRect { left: 600, top: 0, right: 800, bottom: 600 },
            ScreenRect { left: 0, top: 0, right: 800, bottom: 50 },
            ScreenRect { left: 0, top: 560, right: 800, bottom: 600 },
        ]
    );
    assert!(!picking_allowed(700, 300, false, &rects));
    assert!(picking_allowed(400, 300, false, &rects));
}

#[test]
fn render_area_keeps_a_border_from_panels() {
    let occ = OccupiedScreenSpace { left: 100, top: 50, right: 200, bottom: 40 };
    assert!(cursor_in_render_area(105, 55, 800, 600, occ));
    assert!(!cursor_in_render_area(104, 300, 800, 600, occ));
    assert!(cursor_in_render_area(595, 555, 800, 600, occ));
    assert!(!cursor_in_render_area(596, 300, 800, 600, occ));
    assert!(!cursor_in_render_area(300, 556, 800, 600, occ));
}
