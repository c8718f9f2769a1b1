use rataflow::{Edge, Flow, Node};

fn make_abc_state() -> Flow<(), ()> {
    let nodes = vec![Node::new("a", ()), Node::new("b", ()), Node::new("c", ())];
    let edges: Vec<Edge<()>> = vec![Edge::new("e1", "a", "b"), Edge::new("e2", "b", "c")];
    Flow::with_graph(nodes, edges).unwrap()
}

fn selected_node_count(flow: &Flow<(), ()>) -> usize {
    flow.nodes().iter().filter(|n| n.selected).count()
}

fn selected_edge_count(flow: &Flow<(), ()>) -> usize {
    flow.edges().iter().filter(|e| e.selected).count()
}

#[test]
fn test_multi_select_toggle() {
    let mut state = make_abc_state();
    state.toggle_node_selection("a");
    assert!(state.node("a").unwrap().selected);
    assert!(!state.node("b").unwrap().selected);
    state.toggle_node_selection("b");
    assert!(state.node("a").unwrap().selected);
    assert!(state.node("b").unwrap().selected);
    state.toggle_node_selection("a");
    assert!(!state.node("a").unwrap().selected);
    assert!(state.node("b").unwrap().selected);
}

#[test]
fn test_select_node_clears_others() {
    let mut state = make_abc_state();
    state.toggle_node_selection("a");
    state.toggle_node_selection("b");
    assert!(state.node("a").unwrap().selected);
    assert!(state.node("b").unwrap().selected);
    state.select_node("c");
    assert!(!state.node("a").unwrap().selected);
    assert!(!state.node("b").unwrap().selected);
    assert!(state.node("c").unwrap().selected);
}

#[test]
fn test_with_graph_honors_selected() {
    let nodes = vec![Node::new("a", ()).with_selected(true), Node::new("b", ())];
    let state: Flow<(), ()> = Flow::with_graph(nodes, vec![]).unwrap();
    assert!(state.node("a").unwrap().selected);
    assert!(!state.node("b").unwrap().selected);
    assert!(state.has_selected_nodes() || state.has_selected_edges());
}

#[test]
fn test_remove_all_selected() {
    let mut state = make_abc_state();
    state.toggle_node_selection("a");
    state.toggle_node_selection("c");
    let removed = state.remove_selected_nodes();
    assert_eq!(removed.len(), 2);
    assert_eq!(state.nodes().len(), 1);
    assert!(state.node("b").is_some());
    assert_eq!(state.edges().len(), 0);
}

#[test]
fn test_select_next_prev_node() {
    let mut state = make_abc_state();
    state.select_next_node();
    assert!(state.node("a").unwrap().selected);
    state.select_next_node();
    assert!(!state.node("a").unwrap().selected);
    assert!(state.node("b").unwrap().selected);
    state.select_next_node();
    state.select_next_node();
    assert!(state.node("a").unwrap().selected);
    state.select_prev_node();
    assert!(state.node("c").unwrap().selected);
}

#[test]
fn test_remove_selected_edges() {
    let mut state = make_abc_state();
    state.toggle_edge_selection("e1");
    state.toggle_edge_selection("e2");
    let removed = state.remove_selected_edges();
    assert_eq!(removed.len(), 2);
    assert_eq!(state.edges().len(), 0);
    assert_eq!(state.nodes().len(), 3);
}

#[test]
fn test_remove_selected_combined() {
    let mut state = make_abc_state();
    state.toggle_node_selection("a");
    state.toggle_edge_selection("e2");
    let removed_nodes = state.remove_selected_nodes();
    let removed_edges = state.remove_selected_edges();
    assert!(!removed_nodes.is_empty() || !removed_edges.is_empty());
    assert_eq!(state.nodes().len(), 2);
    assert_eq!(state.edges().len(), 0);
}

#[test]
fn test_select_all_nodes_leaves_edges_alone() {
    let mut state = make_abc_state();
    state.select_edge("e1");
    state.select_all_nodes();
    assert_eq!(selected_node_count(&state), 3);
    assert!(state.edge("e1").unwrap().selected);
    assert!(!state.edge("e2").unwrap().selected);
}

#[test]
fn test_select_all_edges_leaves_nodes_alone() {
    let mut state = make_abc_state();
    state.select_node("a");
    state.select_all_edges();
    assert_eq!(selected_edge_count(&state), 2);
    assert!(state.node("a").unwrap().selected);
    assert!(!state.node("b").unwrap().selected);
}

#[test]
fn next_then_prev_returns_to_the_first_selected() {
    let mut state = make_abc_state();
    state.select_node("b");
    state.select_next_node();
    assert_eq!(state.first_selected_node_id().as_deref(), Some("c"));
    state.select_prev_node();
    assert_eq!(state.first_selected_node_id().as_deref(), Some("b"));
}

#[test]
fn toggling_twice_restores_the_selection() {
    let mut state = make_abc_state();
    state.select_node("a");
    state.toggle_node_selection("c");
    state.toggle_node_selection("c");
    assert!(state.node("a").unwrap().selected);
    assert!(!state.node("c").unwrap().selected);
}

#[test]
fn edge_selection_cycles_in_insertion_order() {
    let mut state = make_abc_state();
    state.select_next_edge();
    assert_eq!(state.first_selected_edge_id().as_deref(), Some("e1"));
    state.select_next_edge();
    assert_eq!(state.first_selected_edge_id().as_deref(), Some("e2"));
    state.select_next_edge();
    assert_eq!(state.first_selected_edge_id().as_deref(), Some("e1"));
    state.select_prev_edge();
    assert_eq!(state.first_selected_edge_id().as_deref(), Some("e2"));
}

#[test]
fn select_box_hits_selects_only_selectable_listed_nodes() {
    let nodes = vec![
        Node::new("a", ()),
        Node::new("b", ()).with_selectable(false),
        Node::new("c", ()),
    ];
    let mut state: Flow<(), ()> = Flow::with_graph(nodes, vec![]).unwrap();
    state.select_node("c");
    state.select_box_hits(&vec!["a".to_string(), "b".to_string()]);
    assert!(state.node("a").unwrap().selected);
    assert!(!state.node("b").unwrap().selected);
    assert!(!state.node("c").unwrap().selected);
}

#[test]
fn selected_nodes_and_edges_in_order() {
    let mut state = make_abc_state();
    assert!(state.selected_nodes().is_empty());
    state.toggle_node_selection("c");
    state.toggle_node_selection("a");
    let ids: Vec<&str> = state.selected_nodes().iter().map(|n| n.id.as_str()).collect();
    assert_eq!(ids, vec!["a", "c"]);
    state.toggle_edge_selection("e2");
    let ids: Vec<&str> = state.selected_edges().iter().map(|e| e.id.as_str()).collect();
    assert_eq!(ids, vec!["e2"]);
}
