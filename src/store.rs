//! The last synchronised snapshot of projects, nodes, edges and metadata,
//! together with the active project filter and the selection state.
use vstd::prelude::*;
use crate::picking::HoverTarget;

verus! {

/// A project: the scope every node and edge belongs to.
pub struct Project {
    pub id: String,
    pub scope: String,
    pub name: String,
}

/// A graph vertex, tagged with its project.
pub struct Node {
    pub project: String,
    pub id: String,
}

/// A directed relationship between two nodes of a project.
pub struct Edge {
    pub project: String,
    pub id: String,
    pub source: String,
    pub target: String,
}

/// A named metadata record of a node; `value` is a JSON document as text.
pub struct NodeMetadata {
    pub owner_id: String,
    pub name: String,
    pub value: String,
}

/// A named metadata record of an edge; `value` is a JSON document as text.
pub struct EdgeMetadata {
    pub owner_id: String,
    pub name: String,
    pub value: String,
}

/// Why a poll of the remote data source brought no collection.
#[derive(Clone, Copy, Debug, PartialEq, Eq, Structural)]
pub enum FetchError {
    /// The request did not reach the server or got no answer.
    Unreachable,
    /// The server answered with an unsuccessful status code.
    Status(u16),
    /// The answer could not be decoded into a collection.
    Malformed,
}

/// What the crosshair tracks: a node id, or nothing.
pub struct CrosshairTarget {
    pub selected_id: Option<String>,
}

/// The graph state kept between frames.
pub struct GraphStore {
    pub is_connected: bool,
    /// Id of the active project; `None` or an empty id shows every project.
    pub selected_project: Option<String>,
    pub crosshair: CrosshairTarget,
    /// What picking last found under the pointer.
    pub hover: HoverTarget,
    pub hovered_nodes: Vec<Node>,
    pub hovered_edges: Vec<Edge>,
    pub selected_nodes: Vec<Node>,
    /// Ids of selected edges; clicks select nodes only, so this stays as set.
    pub selected_edges: Vec<String>,
    pub nodes: Vec<Node>,
    pub node_metadata: Vec<NodeMetadata>,
    pub edges: Vec<Edge>,
    pub edge_metadata: Vec<EdgeMetadata>,
    pub projects: Vec<Project>,
}

/// Whether a filter shows every project.
pub open spec fn filter_is_open(filter: Option<String>) -> bool {
    match filter {
        None => true,
        Some(p) => p@.len() == 0,
    }
}

/// Whether a node with project id `project` passes the project filter.
pub open spec fn passes_filter(project: Seq<char>, filter: Option<String>) -> bool {
    filter_is_open(filter) || project == filter->Some_0@
}

/// Whether a node of `project` passes the project filter.
pub fn in_filter(project: &String, filter: &Option<String>) -> (r: bool)
    ensures
        r == passes_filter(project@, *filter),
{
    match filter {
        None => true,
        Some(p) => p.as_str().is_empty() || project.eq(p),
    }
}

impl Node {
    /// A field-by-field copy.
    pub fn duplicate(&self) -> (r: Node)
        ensures
            r == *self,
    {
        Node { project: self.project.clone(), id: self.id.clone() }
    }
}

impl Edge {
    /// A field-by-field copy.
    pub fn duplicate(&self) -> (r: Edge)
        ensures
            r == *self,
    {
        Edge {
            project: self.project.clone(),
            id: self.id.clone(),
            source: self.source.clone(),
            target: self.target.clone(),
        }
    }
}

impl NodeMetadata {
    /// A field-by-field copy.
    pub fn duplicate(&self) -> (r: NodeMetadata)
        ensures
            r == *self,
    {
        NodeMetadata { owner_id: self.owner_id.clone(), name: self.name.clone(), value: self.value.clone() }
    }
}

impl EdgeMetadata {
    /// A field-by-field copy.
    pub fn duplicate(&self) -> (r: EdgeMetadata)
        ensures
            r == *self,
    {
        EdgeMetadata { owner_id: self.owner_id.clone(), name: self.name.clone(), value: self.value.clone() }
    }
}

/// `i` is the first position in `nodes` whose id is `id`.
pub open spec fn is_first_node_with_id(nodes: Seq<Node>, id: Seq<char>, i: int) -> bool {
    0 <= i < nodes.len() && nodes[i].id@ == id && forall|j: int| 0 <= j < i ==> nodes[j].id@ != id
}

/// `i` is the first position in `projects` whose id is `id`.
pub open spec fn is_first_project_with_id(projects: Seq<Project>, id: Seq<char>, i: int) -> bool {
    0 <= i < projects.len() && projects[i].id@ == id && forall|j: int| 0 <= j < i ==> projects[j].id@ != id
}

/// `i` is the first position in `edges` whose id is `id`.
pub open spec fn is_first_edge_with_id(edges: Seq<Edge>, id: Seq<char>, i: int) -> bool {
    0 <= i < edges.len() && edges[i].id@ == id && forall|j: int| 0 <= j < i ==> edges[j].id@ != id
}

/// `i` is the first position in `nodes` that passes the project filter.
pub open spec fn is_first_in_filter(nodes: Seq<Node>, filter: Option<String>, i: int) -> bool {
    0 <= i < nodes.len() && passes_filter(nodes[i].project@, filter) && forall|j: int|
        0 <= j < i ==> !passes_filter(nodes[j].project@, filter)
}

/// The view of an optional string.
pub open spec fn id_view(id: Option<String>) -> Option<Seq<char>> {
    match id {
        Some(s) => Some(s@),
        None => None,
    }
}

/// The string under the key `text` of a JSON document given as text: none
/// when the text does not parse, is not an object, lacks the key, or holds
/// something other than a string there.
pub uninterp spec fn json_text_field(doc: Seq<char>) -> Option<Seq<char>>;

/// Relies on `serde_json::from_str` to parse the document into a
/// `serde_json::Value`, on indexing that value by the key `"text"` (which
/// yields `Null` for a missing key or a non-object) and on `Value::as_str`.
#[verifier::external_body]
fn text_field(doc: &String) -> (r: Option<String>)
    ensures
        id_view(r) == json_text_field(doc@),
{
    match serde_json::from_str::<serde_json::Value>(doc) {
        Ok(v) => v["text"].as_str().map(String::from),
        Err(_) => None,
    }
}

/// The title of a node: the node id when it has no metadata, else the text
/// found in its first metadata record, or an empty title when there is none.
pub open spec fn title_spec(node_id: Seq<char>, has_metadata: bool, text: Option<Seq<char>>) -> Seq<char> {
    if !has_metadata {
        node_id
    } else {
        match text {
            Some(t) => t,
            None => Seq::empty(),
        }
    }
}

/// The title of a node from what its first metadata record holds.
pub fn title_from(node_id: &String, has_metadata: bool, text: Option<String>) -> (r: String)
    ensures
        r@ == title_spec(node_id@, has_metadata, id_view(text)),
{
    if !has_metadata {
        node_id.clone()
    } else {
        match text {
            Some(t) => t,
            None => String::new(),
        }
    }
}

/// `i` is the first position in `records` owned by `owner`.
pub open spec fn is_first_metadata_of(records: Seq<NodeMetadata>, owner: Seq<char>, i: int) -> bool {
    0 <= i < records.len() && records[i].owner_id@ == owner && forall|j: int|
        0 <= j < i ==> records[j].owner_id@ != owner
}

/// Whether a node metadata record belongs to `owner`.
pub open spec fn node_metadata_owned_by(owner: Seq<char>) -> spec_fn(NodeMetadata) -> bool {
    |m: NodeMetadata| m.owner_id@ == owner
}

/// Whether an edge metadata record belongs to `owner`.
pub open spec fn edge_metadata_owned_by(owner: Seq<char>) -> spec_fn(EdgeMetadata) -> bool {
    |m: EdgeMetadata| m.owner_id@ == owner
}

/// Replaces `list` with a fetched collection, or keeps it when the fetch failed.
fn replace_on_success<T>(list: &mut Vec<T>, fetched: Result<Vec<T>, FetchError>) -> (updated: bool)
    ensures
        updated == fetched is Ok,
        fetched is Ok ==> final(list)@ == fetched->Ok_0@,
        fetched is Err ==> *final(list) == *old(list),
{
    match fetched {
        Ok(v) => {
            *list = v;
            true
        },
        Err(_) => false,
    }
}

impl GraphStore {
    /// An empty store with no filter, no selection and no connection yet.
    pub fn new() -> (r: GraphStore)
        ensures
            !r.is_connected,
            r.selected_project is None,
            r.crosshair.selected_id is None,
            r.hover is Nothing,
            r.hovered_nodes@.len() == 0,
            r.hovered_edges@.len() == 0,
            r.selected_nodes@.len() == 0,
            r.selected_edges@.len() == 0,
            r.nodes@.len() == 0,
            r.node_metadata@.len() == 0,
            r.edges@.len() == 0,
            r.edge_metadata@.len() == 0,
            r.projects@.len() == 0,
    {
        GraphStore {
            is_connected: false,
            selected_project: None,
            crosshair: CrosshairTarget { selected_id: None },
            hover: HoverTarget::Nothing,
            hovered_nodes: Vec::new(),
            hovered_edges: Vec::new(),
            selected_nodes: Vec::new(),
            selected_edges: Vec::new(),
            nodes: Vec::new(),
            node_metadata: Vec::new(),
            edges: Vec::new(),
            edge_metadata: Vec::new(),
            projects: Vec::new(),
        }
    }


    /// Takes in a polled node collection: a success replaces the list whole
    /// and marks the store connected; a failure changes nothing.
    pub fn apply_nodes(&mut self, fetched: Result<Vec<Node>, FetchError>)
        ensures
            fetched is Ok ==> final(self).nodes@ == fetched->Ok_0@ && final(self).is_connected
                && (GraphStore {
                    nodes: old(self).nodes,
                    is_connected: old(self).is_connected,
                    ..*final(self)
                }) == *old(self),
            fetched is Err ==> *final(self) == *old(self),
    {
        if replace_on_success(&mut self.nodes, fetched) {
            self.is_connected = true;
        }
    }

    /// Takes in a polled edge collection: a success replaces the list whole
    /// and marks the store connected; a failure changes nothing.
    pub fn apply_edges(&mut self, fetched: Result<Vec<Edge>, FetchError>)
        ensures
            fetched is Ok ==> final(self).edges@ == fetched->Ok_0@ && final(self).is_connected
                && (GraphStore {
                    edges: old(self).edges,
                    is_connected: old(self).is_connected,
                    ..*final(self)
                }) == *old(self),
            fetched is Err ==> *final(self) == *old(self),
    {
        if replace_on_success(&mut self.edges, fetched) {
            self.is_connected = true;
        }
    }



    /// Position of the first node whose id is `id`.
    pub fn find_node(&self, id: &String) -> (r: Option<usize>)
        ensures
            r is Some ==> is_first_node_with_id(self.nodes@, id@, r->Some_0 as int),
            r is None ==> forall|j: int| 0 <= j < self.nodes@.len() ==> self.nodes@[j].id@ != id@,
    {
        let mut i: usize = 0;
        while i < self.nodes.len()
            invariant
                i <= self.nodes@.len(),
                forall|j: int| 0 <= j < i ==> self.nodes@[j].id@ != id@,
            decreases self.nodes@.len() - i,
        {
            if self.nodes[i].id.eq(id) {
                return Some(i);
            }
            i = i + 1;
        }
        None
    }

    /// Position of the first project whose id is `id`.
    pub fn find_project(&self, id: &String) -> (r: Option<usize>)
        ensures
            r is Some ==> is_first_project_with_id(self.projects@, id@, r->Some_0 as int),
            r is None ==> forall|j: int| 0 <= j < self.projects@.len() ==> self.projects@[j].id@ != id@,
    {
        let mut i: usize = 0;
        while i < self.projects.len()
            invariant
                i <= self.projects@.len(),
                forall|j: int| 0 <= j < i ==> self.projects@[j].id@ != id@,
            decreases self.projects@.len() - i,
        {
            if self.projects[i].id.eq(id) {
                return Some(i);
            }
            i = i + 1;
        }
        None
    }

    /// Position of the first edge whose id is `id`.
    pub fn find_edge(&self, id: &String) -> (r: Option<usize>)
        ensures
            r is Some ==> is_first_edge_with_id(self.edges@, id@, r->Some_0 as int),
            r is None ==> forall|j: int| 0 <= j < self.edges@.len() ==> self.edges@[j].id@ != id@,
    {
        let mut i: usize = 0;
        while i < self.edges.len()
            invariant
                i <= self.edges@.len(),
                forall|j: int| 0 <= j < i ==> self.edges@[j].id@ != id@,
            decreases self.edges@.len() - i,
        {
            if self.edges[i].id.eq(id) {
                return Some(i);
            }
            i = i + 1;
        }
        None
    }

    /// Id of the first node that passes the active project filter.
    pub fn first_node_in_filter(&self) -> (r: Option<String>)
        ensures
            r is Some ==> exists|i: int| is_first_in_filter(self.nodes@, self.selected_project, i)
                && self.nodes@[i].id@ == r->Some_0@,
            r is None ==> forall|j: int| 0 <= j < self.nodes@.len() ==> !passes_filter(
                self.nodes@[j].project@, self.selected_project),
    {
        let mut i: usize = 0;
        while i < self.nodes.len()
            invariant
                i <= self.nodes@.len(),
                forall|j: int| 0 <= j < i ==> !passes_filter(self.nodes@[j].project@, self.selected_project),
            decreases self.nodes@.len() - i,
        {
            if in_filter(&self.nodes[i].project, &self.selected_project) {
                assert(is_first_in_filter(self.nodes@, self.selected_project, i as int));
                return Some(self.nodes[i].id.clone());
            }
            i = i + 1;
        }
        None
    }

    /// The metadata records of the node `owner_id`, in stored order.
    pub fn metadata_for_node(&self, owner_id: &String) -> (r: Vec<NodeMetadata>)
        ensures
            r@ == self.node_metadata@.filter(node_metadata_owned_by(owner_id@)),
    {
        let ghost pred = node_metadata_owned_by(owner_id@);
        let mut r: Vec<NodeMetadata> = Vec::new();
        let mut i: usize = 0;
        while i < self.node_metadata.len()
            invariant
                i <= self.node_metadata@.len(),
                pred == node_metadata_owned_by(owner_id@),
                r@ == self.node_metadata@.subrange(0, i as int).filter(pred),
            decreases self.node_metadata@.len() - i,
        {
            proof {
                let all = self.node_metadata@;
                assert(all.subrange(0, i + 1) == all.subrange(0, i as int).push(all[i as int]));
                all.subrange(0, i as int).lemma_filter_push(all[i as int], pred);
            }
            if self.node_metadata[i].owner_id.eq(owner_id) {
                r.push(self.node_metadata[i].duplicate());
            }
            i = i + 1;
        }
        assert(self.node_metadata@.subrange(0, i as int) == self.node_metadata@);
        r
    }

    /// The metadata records of the edge `owner_id`, in stored order.
    pub fn metadata_for_edge(&self, owner_id: &String) -> (r: Vec<EdgeMetadata>)
        ensures
            r@ == self.edge_metadata@.filter(edge_metadata_owned_by(owner_id@)),
    {
        let ghost pred = edge_metadata_owned_by(owner_id@);
        let mut r: Vec<EdgeMetadata> = Vec::new();
        let mut i: usize = 0;
        while i < self.edge_metadata.len()
            invariant
                i <= self.edge_metadata@.len(),
                pred == edge_metadata_owned_by(owner_id@),
                r@ == self.edge_metadata@.subrange(0, i as int).filter(pred),
            decreases self.edge_metadata@.len() - i,
        {
            proof {
                let all = self.edge_metadata@;
                assert(all.subrange(0, i + 1) == all.subrange(0, i as int).push(all[i as int]));
                all.subrange(0, i as int).lemma_filter_push(all[i as int], pred);
            }
            if self.edge_metadata[i].owner_id.eq(owner_id) {
                r.push(self.edge_metadata[i].duplicate());
            }
            i = i + 1;
        }
        assert(self.edge_metadata@.subrange(0, i as int) == self.edge_metadata@);
        r
    }

    /// Position of the first metadata record of the node `owner_id`.
    pub fn first_metadata_of_node(&self, owner_id: &String) -> (r: Option<usize>)
        ensures
            r is Some ==> is_first_metadata_of(self.node_metadata@, owner_id@, r->Some_0 as int),
            r is None ==> forall|j: int|
                0 <= j < self.node_metadata@.len() ==> self.node_metadata@[j].owner_id@ != owner_id@,
    {
        let mut i: usize = 0;
        while i < self.node_metadata.len()
            invariant
                i <= self.node_metadata@.len(),
                forall|j: int| 0 <= j < i ==> self.node_metadata@[j].owner_id@ != owner_id@,
            decreases self.node_metadata@.len() - i,
        {
            if self.node_metadata[i].owner_id.eq(owner_id) {
                return Some(i);
            }
            i = i + 1;
        }
        None
    }

    /// The title the selection panel shows for the node `node_id`.
    pub fn node_title(&self, node_id: &String) -> (r: String)
        ensures
            (forall|j: int|
                0 <= j < self.node_metadata@.len() ==> self.node_metadata@[j].owner_id@ != node_id@) ==> r@
                == node_id@,
            forall|i: int|
                is_first_metadata_of(self.node_metadata@, node_id@, i) ==> r@ == title_spec(
                    node_id@,
                    true,
                    json_text_field(self.node_metadata@[i].value@),
                ),
    {
        match self.first_metadata_of_node(node_id) {
            None => title_from(node_id, false, None),
            Some(i) => {
                let text = text_field(&self.node_metadata[i].value);
                let r = title_from(node_id, true, text);
                proof {
                    assert forall|k: int| is_first_metadata_of(self.node_metadata@, node_id@, k) implies k
                        == i by {
                        if k < i {
                            assert(self.node_metadata@[k].owner_id@ != node_id@);
                        } else if k > i {
                            assert(self.node_metadata@[i as int].owner_id@ != node_id@);
                        }
                    }
                }
                r
            },
        }
    }
}

/// Takes in a polled project collection: a success replaces the list whole
/// and marks the store connected; a failure changes nothing.
pub fn run_project_controller(store: &mut GraphStore, fetched: Result<Vec<Project>, FetchError>)
    ensures
        fetched is Ok ==> final(store).projects@ == fetched->Ok_0@ && final(store).is_connected
            && (GraphStore {
                projects: old(store).projects,
                is_connected: old(store).is_connected,
                ..*final(store)
            }) == *old(store),
        fetched is Err ==> *final(store) == *old(store),
{
    if replace_on_success(&mut store.projects, fetched) {
        store.is_connected = true;
    }
}

/// Takes in a polled node metadata collection: a success replaces the list whole
/// and marks the store connected; a failure changes nothing.
pub fn run_node_metadata_controller(store: &mut GraphStore, fetched: Result<Vec<NodeMetadata>, FetchError>)
    ensures
        fetched is Ok ==> final(store).node_metadata@ == fetched->Ok_0@ && final(store).is_connected
            && (GraphStore {
                node_metadata: old(store).node_metadata,
                is_connected: old(store).is_connected,
                ..*final(store)
            }) == *old(store),
        fetched is Err ==> *final(store) == *old(store),
{
    if replace_on_success(&mut store.node_metadata, fetched) {
        store.is_connected = true;
    }
}

/// Takes in a polled edge metadata collection: a success replaces the list whole
/// and marks the store connected; a failure changes nothing.
pub fn run_edge_metadata_controller(store: &mut GraphStore, fetched: Result<Vec<EdgeMetadata>, FetchError>)
    ensures
        fetched is Ok ==> final(store).edge_metadata@ == fetched->Ok_0@ && final(store).is_connected
            && (GraphStore {
                edge_metadata: old(store).edge_metadata,
                is_connected: old(store).is_connected,
                ..*final(store)
            }) == *old(store),
        fetched is Err ==> *final(store) == *old(store),
{
    if replace_on_success(&mut store.edge_metadata, fetched) {
        store.is_connected = true;
    }
}

} // verus!
