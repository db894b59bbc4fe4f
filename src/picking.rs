//! Turning pointer rays into hover state, and clicks into a node selection.
use vstd::prelude::*;
use crate::store::{GraphStore, Node, Edge, is_first_node_with_id, is_first_edge_with_id};

verus! {

/// A screen-space rectangle in whole pixels, claimed by a UI panel.
#[derive(Clone, Copy, Debug, PartialEq, Eq, Structural)]
pub struct ScreenRect {
    pub left: i64,
    pub top: i64,
    pub right: i64,
    pub bottom: i64,
}

/// Pixels next to a panel edge that still count as the panel.
pub const PANEL_BORDER: i64 = 5;

/// Widths of the panels along each window edge, in whole pixels.
#[derive(Clone, Copy, Debug, PartialEq, Eq, Structural)]
pub struct OccupiedScreenSpace {
    pub left: i32,
    pub top: i32,
    pub right: i32,
    pub bottom: i32,
}

/// The nearest object a ray met within one collision category.
pub struct RayHit {
    /// Id of the node or edge that was hit.
    pub id: String,
    /// Distance from the ray origin, in fixed-point units.
    pub distance: u64,
}

/// What the pointer is over in this frame.
pub enum HoverTarget {
    Nothing,
    Node(String),
    Edge(String),
}

impl ScreenRect {
    pub open spec fn holds(self, x: int, y: int) -> bool {
        self.left <= x < self.right && self.top <= y < self.bottom
    }

    /// Whether the pixel `(x, y)` lies inside the rectangle.
    pub fn contains(&self, x: i64, y: i64) -> (r: bool)
        ensures
            r == self.holds(x as int, y as int),
    {
        self.left <= x && x < self.right && self.top <= y && y < self.bottom
    }
}

/// Whether the pixel `(x, y)` lies inside one of the panels.
pub open spec fn over_panel(panels: Seq<ScreenRect>, x: int, y: int) -> bool {
    exists|i: int| 0 <= i < panels.len() && #[trigger] panels[i].holds(x, y)
}

/// Picking runs only while the camera is not being dragged and the pointer
/// is outside every panel.
pub fn picking_allowed(x: i64, y: i64, camera_dragging: bool, panels: &Vec<ScreenRect>) -> (r: bool)
    ensures
        r == (!camera_dragging && !over_panel(panels@, x as int, y as int)),
{
    if camera_dragging {
        return false;
    }
    let mut i: usize = 0;
    while i < panels.len()
        invariant
            i <= panels@.len(),
            forall|j: int| 0 <= j < i ==> !#[trigger] panels@[j].holds(x as int, y as int),
        decreases panels@.len() - i,
    {
        if panels[i].contains(x, y) {
            return false;
        }
        i = i + 1;
    }
    true
}

/// Whether the pixel `(x, y)` of a `width` by `height` window lies in the
/// render area: inside the panels and `PANEL_BORDER` pixels away from them.
pub open spec fn in_render_area(x: int, y: int, width: int, height: int, occupied: OccupiedScreenSpace) -> bool {
    occupied.left + PANEL_BORDER <= x <= width - occupied.right - PANEL_BORDER && occupied.top
        + PANEL_BORDER <= y <= height - occupied.bottom - PANEL_BORDER
}

/// Whether the pointer lies in the render area, where it may orbit the camera.
pub fn cursor_in_render_area(x: i32, y: i32, width: i32, height: i32, occupied: OccupiedScreenSpace) -> (r: bool)
    ensures
        r == in_render_area(x as int, y as int, width as int, height as int, occupied),
{
    let (x, y, w, h) = (x as i64, y as i64, width as i64, height as i64);
    occupied.left as i64 + PANEL_BORDER <= x && x <= w - occupied.right as i64 - PANEL_BORDER
        && occupied.top as i64 + PANEL_BORDER <= y && y <= h - occupied.bottom as i64 - PANEL_BORDER
}

/// The screen rectangles the panels claim in a `width` by `height` window:
/// the left, right, top and bottom strips, in that order.
pub fn panel_rects(width: i32, height: i32, occupied: OccupiedScreenSpace) -> (r: Vec<ScreenRect>)
    ensures
        r@ == seq![
            ScreenRect { left: 0, top: 0, right: occupied.left as i64, bottom: height as i64 },
            ScreenRect { left: (width - occupied.right) as i64, top: 0, right: width as i64, bottom: height as i64 },
            ScreenRect { left: 0, top: 0, right: width as i64, bottom: occupied.top as i64 },
            ScreenRect { left: 0, top: (height - occupied.bottom) as i64, right: width as i64, bottom: height as i64 },
        ],
{
    let (w, h) = (width as i64, height as i64);
    let mut r: Vec<ScreenRect> = Vec::new();
    r.push(ScreenRect { left: 0, top: 0, right: occupied.left as i64, bottom: h });
    r.push(ScreenRect { left: w - occupied.right as i64, top: 0, right: w, bottom: h });
    r.push(ScreenRect { left: 0, top: 0, right: w, bottom: occupied.top as i64 });
    r.push(ScreenRect { left: 0, top: h - occupied.bottom as i64, right: w, bottom: h });
    assert(r@ =~= seq![
        ScreenRect { left: 0, top: 0, right: occupied.left as i64, bottom: height as i64 },
        ScreenRect { left: (width - occupied.right) as i64, top: 0, right: width as i64, bottom: height as i64 },
        ScreenRect { left: 0, top: 0, right: width as i64, bottom: occupied.top as i64 },
        ScreenRect { left: 0, top: (height - occupied.bottom) as i64, right: width as i64, bottom: height as i64 },
    ]);
    r
}

/// The hover of a frame: a node hit wins over any edge hit, whatever their
/// distances; an edge is hovered only when no node was hit.
pub fn resolve_hover(node_hit: Option<RayHit>, edge_hit: Option<RayHit>) -> (r: HoverTarget)
    ensures
        node_hit is Some ==> r == HoverTarget::Node(node_hit->Some_0.id),
        node_hit is None && edge_hit is Some ==> r == HoverTarget::Edge(edge_hit->Some_0.id),
        node_hit is None && edge_hit is None ==> r is Nothing,
{
    match node_hit {
        Some(hit) => HoverTarget::Node(hit.id),
        None => match edge_hit {
            Some(hit) => HoverTarget::Edge(hit.id),
            None => HoverTarget::Nothing,
        },
    }
}

/// The hover that picking settles on: the node hit if any, else the edge hit.
pub open spec fn picked_target(node_hit: Option<RayHit>, edge_hit: Option<RayHit>) -> HoverTarget {
    if node_hit is Some {
        HoverTarget::Node(node_hit->Some_0.id)
    } else if edge_hit is Some {
        HoverTarget::Edge(edge_hit->Some_0.id)
    } else {
        HoverTarget::Nothing
    }
}

/// The node records published for a hover target: the first node with the
/// hovered id, if the target is a node that the store knows.
pub open spec fn hovered_node_records(nodes: Seq<Node>, target: HoverTarget) -> Seq<Node> {
    match target {
        HoverTarget::Node(id) => if exists|i: int| is_first_node_with_id(nodes, id@, i) {
            seq![nodes[choose|i: int| is_first_node_with_id(nodes, id@, i)]]
        } else {
            seq![]
        },
        _ => seq![],
    }
}

/// The edge records published for a hover target.
pub open spec fn hovered_edge_records(edges: Seq<Edge>, target: HoverTarget) -> Seq<Edge> {
    match target {
        HoverTarget::Edge(id) => if exists|i: int| is_first_edge_with_id(edges, id@, i) {
            seq![edges[choose|i: int| is_first_edge_with_id(edges, id@, i)]]
        } else {
            seq![]
        },
        _ => seq![],
    }
}

/// The selection after a click: a press over a hovered node appends it, after
/// clearing the selection unless the multi-select modifier is held.
pub open spec fn click_selection(selected: Seq<Node>, hovered: Seq<Node>, pressed: bool, multi: bool) -> Seq<Node> {
    if pressed && hovered.len() == 1 {
        if multi {
            selected.push(hovered[0])
        } else {
            seq![hovered[0]]
        }
    } else {
        selected
    }
}

/// The published hover never holds a node and an edge at once, and at most
/// one of either.
pub proof fn hover_is_exclusive(nodes: Seq<Node>, edges: Seq<Edge>, target: HoverTarget)
    ensures
        hovered_node_records(nodes, target).len() <= 1,
        hovered_edge_records(edges, target).len() <= 1,
        hovered_node_records(nodes, target).len() == 0 || hovered_edge_records(edges, target).len() == 0,
{
}

proof fn lemma_first_node_unique(nodes: Seq<Node>, id: Seq<char>, i: int, j: int)
    requires
        is_first_node_with_id(nodes, id, i),
        is_first_node_with_id(nodes, id, j),
    ensures
        i == j,
{
}

proof fn lemma_first_edge_unique(edges: Seq<Edge>, id: Seq<char>, i: int, j: int)
    requires
        is_first_edge_with_id(edges, id, i),
        is_first_edge_with_id(edges, id, j),
    ensures
        i == j,
{
}

impl GraphStore {
    /// Publishes the hover of this frame: at most one node or one edge, never both.
    pub fn publish_hover(&mut self, target: &HoverTarget)
        ensures
            final(self).hovered_nodes@ == hovered_node_records(old(self).nodes@, *target),
            final(self).hovered_edges@ == hovered_edge_records(old(self).edges@, *target),
            (GraphStore {
                hovered_nodes: old(self).hovered_nodes,
                hovered_edges: old(self).hovered_edges,
                ..*final(self)
            }) == *old(self),
    {
        let mut hovered_nodes: Vec<Node> = Vec::new();
        let mut hovered_edges: Vec<Edge> = Vec::new();
        match target {
            HoverTarget::Node(id) => {
                if let Some(i) = self.find_node(id) {
                    hovered_nodes.push(self.nodes[i].duplicate());
                    proof {
                        let c = choose|k: int| is_first_node_with_id(self.nodes@, id@, k);
                        lemma_first_node_unique(self.nodes@, id@, i as int, c);
                    }
                    assert(hovered_nodes@ == hovered_node_records(self.nodes@, *target));
                }
            },
            HoverTarget::Edge(id) => {
                if let Some(i) = self.find_edge(id) {
                    hovered_edges.push(self.edges[i].duplicate());
                    proof {
                        let c = choose|k: int| is_first_edge_with_id(self.edges@, id@, k);
                        lemma_first_edge_unique(self.edges@, id@, i as int, c);
                    }
                    assert(hovered_edges@ == hovered_edge_records(self.edges@, *target));
                }
            },
            HoverTarget::Nothing => {},
        }
        self.hovered_nodes = hovered_nodes;
        self.hovered_edges = hovered_edges;
    }

    /// One frame of picking: when picking is allowed the hover is resolved
    /// from the two category hits and published; otherwise nothing changes.
    pub fn update_hover(&mut self, allowed: bool, node_hit: Option<RayHit>, edge_hit: Option<RayHit>)
        ensures
            !allowed ==> *final(self) == *old(self),
            allowed ==> final(self).hover == picked_target(node_hit, edge_hit),
            allowed ==> final(self).hovered_nodes@ == hovered_node_records(old(self).nodes@, final(self).hover),
            allowed ==> final(self).hovered_edges@ == hovered_edge_records(old(self).edges@, final(self).hover),
            (GraphStore {
                hovered_nodes: old(self).hovered_nodes,
                hovered_edges: old(self).hovered_edges,
                hover: old(self).hover,
                ..*final(self)
            }) == *old(self),
    {
        if allowed {
            let target = resolve_hover(node_hit, edge_hit);
            self.publish_hover(&target);
            self.hover = target;
        }
    }

    /// Publishes the edge records of the current hover, whether or not it
    /// changed since the last frame.
    pub fn publish_hovered_edges(&mut self)
        ensures
            final(self).hovered_edges@ == hovered_edge_records(old(self).edges@, old(self).hover),
            (GraphStore { hovered_edges: old(self).hovered_edges, ..*final(self) }) == *old(self),
    {
        let mut hovered_edges: Vec<Edge> = Vec::new();
        match &self.hover {
            HoverTarget::Edge(id) => {
                if let Some(i) = self.find_edge(id) {
                    hovered_edges.push(self.edges[i].duplicate());
                    proof {
                        let c = choose|k: int| is_first_edge_with_id(self.edges@, id@, k);
                        lemma_first_edge_unique(self.edges@, id@, i as int, c);
                    }
                    assert(hovered_edges@ == hovered_edge_records(self.edges@, self.hover));
                }
            },
            _ => {},
        }
        self.hovered_edges = hovered_edges;
    }
}

/// Handles the primary button: a press while exactly one node is hovered
/// adds it to the selection (replacing the selection unless
/// `multi_select` is held) and makes the crosshair track it.
pub fn handle_node_click(store: &mut GraphStore, just_pressed: bool, multi_select: bool)
    ensures
        final(store).selected_nodes@ == click_selection(
            old(store).selected_nodes@,
            old(store).hovered_nodes@,
            just_pressed,
            multi_select,
        ),
        just_pressed && old(store).hovered_nodes@.len() == 1 ==> final(store).crosshair.selected_id
            == Some(old(store).hovered_nodes@[0].id),
        !(just_pressed && old(store).hovered_nodes@.len() == 1) ==> final(store).crosshair
            == old(store).crosshair,
        (GraphStore {
            selected_nodes: old(store).selected_nodes,
            crosshair: old(store).crosshair,
            ..*final(store)
        }) == *old(store),
{
    if just_pressed && store.hovered_nodes.len() == 1 {
        let node = store.hovered_nodes[0].duplicate();
        if !multi_select {
            store.selected_nodes = Vec::new();
        }
        store.crosshair.selected_id = Some(node.id.clone());
        store.selected_nodes.push(node);
        assert(store.selected_nodes@ =~= click_selection(
            old(store).selected_nodes@,
            old(store).hovered_nodes@,
            just_pressed,
            multi_select,
        ));
    }
}

/// Hovering and clicking a known node `a`, then a known node `b`: with the
/// multi-select modifier held both are appended to the selection, in that
/// order; without it only `b` stays selected.
pub proof fn selection_accumulates(nodes: Seq<Node>, selected: Seq<Node>, a: String, b: String)
    requires
        exists|i: int| is_first_node_with_id(nodes, a@, i),
        exists|i: int| is_first_node_with_id(nodes, b@, i),
    ensures
        ({
            let ha = hovered_node_records(nodes, HoverTarget::Node(a));
            let hb = hovered_node_records(nodes, HoverTarget::Node(b));
            &&& ha.len() == 1 && ha[0].id@ == a@
            &&& hb.len() == 1 && hb[0].id@ == b@
            &&& click_selection(click_selection(selected, ha, true, true), hb, true, true) == selected.push(
                ha[0],
            ).push(hb[0])
            &&& click_selection(click_selection(selected, ha, true, false), hb, true, false) == seq![hb[0]]
        }),
{
    let ia = choose|i: int| is_first_node_with_id(nodes, a@, i);
    let ib = choose|i: int| is_first_node_with_id(nodes, b@, i);
    let ha = hovered_node_records(nodes, HoverTarget::Node(a));
    let hb = hovered_node_records(nodes, HoverTarget::Node(b));
    assert(ha == seq![nodes[ia]]);
    assert(hb == seq![nodes[ib]]);
    assert(click_selection(selected, ha, true, false) == seq![nodes[ia]]);
    assert(click_selection(seq![nodes[ia]], hb, true, false) == seq![nodes[ib]]);
}

} // verus!
