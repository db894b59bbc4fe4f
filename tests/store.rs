use atlas::store::{
    in_filter, run_edge_metadata_controller, run_node_metadata_controller, run_project_controller,
    title_from, Edge, FetchError, GraphStore, Node, NodeMetadata, Project,
};

fn node(project: &str, id: &str) -> Node {
    Node { project: project.to_string(), id: id.to_string() }
}

fn meta(owner: &str, name: &str, value: &str) -> NodeMetadata {
    NodeMetadata { owner_id: owner.to_string(), name: name.to_string(), value: value.to_string() }
}

#[test]
fn successful_fetch_replaces_even_with_empty_list() {
    let mut store = GraphStore::new();
    store.apply_nodes(Ok(vec![node("p", "a"), node("p", "b")]));
    assert!(store.is_connected);
    assert_eq!(store.nodes.len(), 2);
    store.apply_nodes(Ok(vec![]));
    assert!(store.nodes.is_empty());
}

#[test]
fn failed_fetch_keeps_previous_lists() {
    let mut store = GraphStore::new();
    run_project_controller(&mut store, Ok(vec![Project {
        id: "p".to_string(),
        scope: "acme".to_string(),
        name: "atlas".to_string(),
    }]));
    store.apply_nodes(Ok(vec![node("p", "a")]));
    store.apply_edges(Ok(vec![Edge {
        project: "p".to_string(),
        id: "e".to_string(),
        source: "a".to_string(),
        target: "a".to_string(),
    }]));
    store.apply_nodes(Err(FetchError::Unreachable));
    store.apply_edges(Err(FetchError::Status(500)));
    run_project_controller(&mut store, Err(FetchError::Malformed));
    assert_eq!(store.nodes.len(), 1);
    assert_eq!(store.nodes[0].id, "a");
    assert_eq!(store.edges[0].id, "e");
    assert_eq!(store.projects[0].name, "atlas");
}

#[test]
fn failed_fetch_on_fresh_store_stays_disconnected() {
    let mut store = GraphStore::new();
    run_node_metadata_controller(&mut store, Err(FetchError::Unreachable));
    assert!(!store.is_connected);
    run_edge_metadata_controller(&mut store, Ok(vec![]));
    assert!(store.is_connected);
}

#[test]
fn filter_passes_everything_when_open() {
    assert!(in_filter(&"p".to_string(), &None));
    assert!(in_filter(&"p".to_string(), &Some(String::new())));
    assert!(in_filter(&"p".to_string(), &Some("p".to_string())));
    assert!(!in_filter(&"q".to_string(), &Some("p".to_string())));
}

#[test]
fn lookups_find_first_match() {
    let mut store = GraphStore::new();
    store.apply_nodes(Ok(vec![node("p", "a"), node("q", "b"), node("q", "b")]));
    assert_eq!(store.find_node(&"b".to_string()), Some(1));
    assert_eq!(store.find_node(&"z".to_string()), None);
    store.selected_project = Some("q".to_string());
    assert_eq!(store.first_node_in_filter(), Some("b".to_string()));
    store.selected_project = Some("none".to_string());
    assert_eq!(store.first_node_in_filter(), None);
}

#[test]
fn metadata_is_filtered_by_owner_in_order() {
    let mut store = GraphStore::new();
    run_node_metadata_controller(&mut store, Ok(vec![
        meta("a", "one", "1"),
        meta("b", "two", "2"),
        meta("a", "three", "3"),
    ]));
    let found = store.metadata_for_node(&"a".to_string());
    assert_eq!(found.len(), 2);
    assert_eq!(found[0].name, "one");
    assert_eq!(found[1].name, "three");
    assert!(store.metadata_for_edge(&"a".to_string()).is_empty());
}

#[test]
fn node_title_reads_text_of_first_metadata() {
    let mut store = GraphStore::new();
    run_node_metadata_controller(&mut store, Ok(vec![
        meta("a", "note", "{\"text\":\"Hello\"}"),
        meta("a", "later", "{\"text\":\"Ignored\"}"),
        meta("b", "note", "{\"other\":1}"),
        meta("c", "note", "not json"),
    ]));
    assert_eq!(store.node_title(&"a".to_string()), "Hello");
    assert_eq!(store.node_title(&"b".to_string()), "");
    assert_eq!(store.node_title(&"c".to_string()), "");
    assert_eq!(store.node_title(&"d".to_string()), "d");
}

#[test]
fn title_from_parts() {
    assert_eq!(title_from(&"n".to_string(), false, Some("t".to_string())), "n");
    assert_eq!(title_from(&"n".to_string(), true, Some("t".to_string())), "t");
    assert_eq!(title_from(&"n".to_string(), true, None), "");
}

#[test]
fn projects_are_found_by_id() {
    let mut store = GraphStore::new();
    run_project_controller(&mut store, Ok(vec![
        Project { id: "p1".to_string(), scope: "acme".to_string(), name: "one".to_string() },
        Project { id: "p2".to_string(), scope: "acme".to_string(), name: "two".to_string() },
    ]));
    assert_eq!(store.find_project(&"p2".to_string()), Some(1));
    assert_eq!(store.find_project(&"p3".to_string()), None);
}
