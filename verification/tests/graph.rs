use rataflow::{Connection, Edge, Error, Flow, Handle, HandlePosition, Node};

fn node(id: &str) -> Node<()> {
    Node::new(id, ())
}

fn abc() -> Flow<(), ()> {
    let nodes = vec![node("a"), node("b"), node("c")];
    let edges: Vec<Edge<()>> = vec![Edge::new("e1", "a", "b"), Edge::new("e2", "b", "c")];
    Flow::with_graph(nodes, edges).unwrap()
}

fn parenting_flow() -> Flow<(), ()> {
    Flow::with_graph(vec![node("group"), node("other"), node("loose")], Vec::new()).unwrap()
}

#[test]
fn a_node_cannot_become_its_own_ancestor() {
    let mut flow = parenting_flow();
    flow.set_node_parent("loose", Some("group")).unwrap();

    assert!(matches!(
        flow.set_node_parent("group", Some("group")),
        Err(Error::CyclicParent { .. })
    ));
    assert!(matches!(
        flow.set_node_parent("group", Some("loose")),
        Err(Error::CyclicParent { .. })
    ));
    assert!(flow.node("group").unwrap().parent_id.is_none());
}

#[test]
fn re_parenting_reports_missing_nodes() {
    let mut flow = parenting_flow();
    assert!(matches!(
        flow.set_node_parent("nope", Some("group")),
        Err(Error::NodeNotFound { .. })
    ));
    assert!(matches!(
        flow.set_node_parent("loose", Some("nope")),
        Err(Error::NodeNotFound { .. })
    ));
}

#[test]
fn re_parenting_sets_and_clears_the_parent() {
    let mut flow = parenting_flow();
    flow.set_node_parent("loose", Some("group")).unwrap();
    assert_eq!(flow.node("loose").unwrap().parent_id.as_deref(), Some("group"));
    flow.set_node_parent("loose", Some("other")).unwrap();
    assert_eq!(flow.node("loose").unwrap().parent_id.as_deref(), Some("other"));
    flow.set_node_parent("loose", None).unwrap();
    assert!(flow.node("loose").unwrap().parent_id.is_none());
}

#[test]
fn test_add_node_with_invalid_parent() {
    let mut state: Flow<(), ()> = Flow::new();
    let result = state.add_node(node("a").with_parent("nonexistent"));
    assert!(matches!(result, Err(Error::InvalidParentReference { .. })));
}

#[test]
fn test_add_edge_invalid_source() {
    let mut state: Flow<(), ()> = Flow::new();
    state.add_node(node("a")).unwrap();
    let edge: Edge<()> = Edge::new("e1", "nonexistent", "a");
    let result = state.add_edge(edge);
    assert!(matches!(result, Err(Error::InvalidEdgeReference { .. })));
}

#[test]
fn test_remove_node_removes_connected_edges() {
    let mut state: Flow<(), ()> = Flow::new();
    state.add_node(node("a")).unwrap();
    state.add_node(node("b")).unwrap();
    state.add_node(node("c")).unwrap();
    state.add_edge(Edge::new("e1", "a", "b")).unwrap();
    state.add_edge(Edge::new("e2", "b", "c")).unwrap();
    state.add_edge(Edge::new("e3", "a", "c")).unwrap();
    assert_eq!(state.edges().len(), 3);

    let removed = state.remove_node("b");
    assert!(removed.is_some());
    assert_eq!(state.nodes().len(), 2);
    assert_eq!(state.edges().len(), 1);
    assert!(state.edge("e3").is_some());
}

#[test]
fn test_remove_node_adjusts_selection() {
    let mut state: Flow<(), ()> = Flow::new();
    state.add_node(node("a")).unwrap();
    state.add_node(node("b")).unwrap();
    state.add_node(node("c")).unwrap();

    state.select_node("c");
    assert!(state.node("c").unwrap().selected);
    state.remove_node("a");
    assert!(state.node("c").unwrap().selected);
}

#[test]
fn test_add_node_ambiguous_handles() {
    let mut state: Flow<(), ()> = Flow::new();
    let n = node("a").with_handles(vec![
        Handle::source(HandlePosition::Right),
        Handle::source(HandlePosition::Bottom),
    ]);
    assert!(matches!(state.add_node(n), Err(Error::AmbiguousHandles { .. })));
}

#[test]
fn test_add_node_duplicate_handle_ids() {
    let mut state: Flow<(), ()> = Flow::new();
    let n = node("a").with_handles(vec![
        Handle::source(HandlePosition::Right).with_id("out"),
        Handle::source(HandlePosition::Bottom).with_id("out"),
    ]);
    assert!(matches!(state.add_node(n), Err(Error::DuplicateHandleId { .. })));
}

#[test]
fn test_add_node_valid_multiple_handles() {
    let mut state: Flow<(), ()> = Flow::new();
    let n = node("a").with_handles(vec![
        Handle::source(HandlePosition::Right).with_id("out1"),
        Handle::source(HandlePosition::Bottom).with_id("out2"),
        Handle::target(HandlePosition::Left),
    ]);
    assert!(state.add_node(n).is_ok());
}

#[test]
fn test_hierarchy_with_missing_parent() {
    let orphan = node("orphan").with_parent("nonexistent");
    let result = Flow::<(), ()>::with_graph(vec![orphan], vec![]);
    assert!(matches!(result, Err(Error::InvalidParentReference { .. })));
}

#[test]
fn test_invalid_edge_reference() {
    let edge: Edge<()> = Edge::new("e1", "node1", "nonexistent");
    let result = Flow::with_graph(vec![node("node1")], vec![edge]);
    assert!(matches!(result, Err(Error::InvalidEdgeReference { .. })));
}

#[test]
fn test_remove_selected_removes_connected_edges() {
    let nodes = vec![node("a"), node("b"), node("c")];
    let edges: Vec<Edge<()>> = vec![
        Edge::new("e1", "a", "b"),
        Edge::new("e2", "b", "c"),
        Edge::new("e3", "a", "c"),
    ];
    let mut state = Flow::with_graph(nodes, edges).unwrap();
    assert_eq!(state.nodes().len(), 3);
    assert_eq!(state.edges().len(), 3);

    state.select_node("b");
    let removed = state.remove_selected_nodes();
    assert_eq!(removed.len(), 1);
    assert_eq!(removed[0].id, "b");
    assert_eq!(state.nodes().len(), 2);
    assert_eq!(state.edges().len(), 1);
    assert_eq!(state.edges()[0].id, "e3");
    assert!(!state.has_selected_nodes() && !state.has_selected_edges());
}

#[test]
fn with_graph_reports_the_first_problem_in_order() {
    let dup_nodes = Flow::<(), ()>::with_graph(vec![node("a"), node("a")], vec![]);
    assert!(matches!(dup_nodes, Err(Error::DuplicateNodeId { node_id }) if node_id == "a"));

    let edges: Vec<Edge<()>> = vec![Edge::new("e", "a", "b"), Edge::new("e", "b", "a")];
    let dup_edges = Flow::with_graph(vec![node("a"), node("b")], edges);
    assert!(matches!(dup_edges, Err(Error::DuplicateEdgeId { edge_id }) if edge_id == "e"));

    let looped: Vec<Edge<()>> = vec![Edge::new("loop", "a", "a")];
    let self_ref = Flow::with_graph(vec![node("a")], looped);
    assert!(matches!(self_ref,
        Err(Error::SelfReferentialEdge { edge_id, node_id }) if edge_id == "loop" && node_id == "a"));
}

#[test]
fn connection_edges_are_added_once() {
    let mut flow: Flow<(), ()> = Flow::with_graph(vec![node("a"), node("b")], vec![]).unwrap();
    let conn = Connection::new("a", Some("out".to_string()), "b", None);
    let id = flow.add_edge_from_connection(conn, ());
    assert_eq!(id.as_deref(), Some("a:out<>b:"));
    assert!(flow.edge("a:out<>b:").is_some());
    assert!(flow.connection_exists("a", Some("out"), "b", None));
    assert!(!flow.connection_exists("a", None, "b", None));

    let again = Connection::new("a", Some("out".to_string()), "b", None);
    assert_eq!(flow.add_edge_from_connection(again, ()), None);
    assert_eq!(flow.edges().len(), 1);
}

#[test]
fn clear_empties_the_graph_and_preview() {
    let mut flow = abc();
    flow.set_edge_preview_raw("a".to_string(), None, rataflow::HandleType::Source);
    flow.clear();
    assert_eq!(flow.nodes().len(), 0);
    assert_eq!(flow.edges().len(), 0);
    assert!(flow.edge_preview().is_none());
}

#[test]
fn reconnect_edge_moves_the_endpoints() {
    let mut flow = abc();
    let conn = Connection::new("a", None, "c", None);
    let r = flow.reconnect_edge("e1", conn);
    assert_eq!(r.as_deref(), Some("a:<>c:"));
    assert!(flow.edge("e1").is_none());
    let e = flow.edge("a:<>c:").unwrap();
    assert_eq!(e.source, "a");
    assert_eq!(e.target, "c");
}

#[test]
fn retain_nodes_drops_attached_edges() {
    let mut flow = abc();
    flow.retain_nodes(|n: &Node<()>| n.id != "b");
    assert_eq!(flow.nodes().len(), 2);
    assert_eq!(flow.edges().len(), 0);
}

#[test]
fn content_mut_changes_only_content() {
    let nodes = vec![Node::new("a", 1u32), Node::new("b", 2u32)];
    let edges = vec![Edge::new("e", "a", "b")];
    let mut flow: Flow<u32, u32> = Flow::with_graph(nodes, edges).unwrap();
    if let Some(c) = flow.node_content_mut("b") {
        *c = 20;
    }
    assert_eq!(flow.node("b").unwrap().content, 20);
    assert_eq!(flow.node("a").unwrap().content, 1);
    assert!(flow.node_content_mut("zz").is_none());
    if let Some(c) = flow.edge_content_mut("e") {
        *c = 7;
    }
    assert_eq!(flow.edge("e").unwrap().content, 7);
    assert!(flow.edge_content_mut("zz").is_none());
}

#[test]
fn hierarchy_levels_breadth_first() {
    let nodes = vec![
        Node::new("a", ()),
        Node::new("b", ()).with_parent("a"),
        Node::new("c", ()).with_parent("a"),
        Node::new("d", ()).with_parent("b"),
        Node::new("e", ()),
    ];
    let flow: Flow<(), ()> = Flow::with_graph(nodes, vec![]).unwrap();
    let (order, levels) = flow.hierarchy_levels();
    assert_eq!(order, vec![0, 4, 1, 2, 3]);
    assert_eq!(levels, vec![vec![0], vec![1]]);
}

#[test]
fn hierarchy_levels_flat_graph() {
    let nodes = vec![Node::new("a", ()), Node::new("b", ())];
    let flow: Flow<(), ()> = Flow::with_graph(nodes, vec![]).unwrap();
    let (order, levels) = flow.hierarchy_levels();
    assert_eq!(order, vec![0, 1]);
    assert!(levels.is_empty());
    let empty: Flow<(), ()> = Flow::new();
    assert_eq!(empty.hierarchy_levels(), (vec![], vec![]));
}

#[test]
fn reparented_nodes_stay_reachable() {
    let nodes = vec![
        Node::new("a", ()),
        Node::new("b", ()).with_parent("a"),
        Node::new("c", ()),
    ];
    let mut flow: Flow<(), ()> = Flow::with_graph(nodes, vec![]).unwrap();
    // Making "a" a child of its own child is refused.
    assert!(matches!(flow.set_node_parent("a", Some("b")), Err(Error::CyclicParent { .. })));
    flow.set_node_parent("a", Some("c")).unwrap();
    let (order, levels) = flow.hierarchy_levels();
    assert_eq!(order, vec![2, 0, 1]);
    assert_eq!(levels, vec![vec![2], vec![0]]);
}

#[test]
fn hierarchy_levels_skip_parent_cycles() {
    let nodes = vec![
        Node::new("a", ()).with_parent("b"),
        Node::new("b", ()).with_parent("a"),
        Node::new("c", ()),
    ];
    let flow: Flow<(), ()> = Flow::with_graph(nodes, vec![]).unwrap();
    let (order, levels) = flow.hierarchy_levels();
    assert_eq!(order, vec![2]);
    assert!(levels.is_empty());
}

#[test]
fn test_nodes_content_mut_pairs_id_with_own_content() {
    let mut flow: Flow<String, ()> = Flow::new();
    for id in ["a", "b", "c"] {
        flow.add_node(Node::new(id, id.to_string())).unwrap();
    }
    for (id, content) in flow.nodes_content_mut() {
        *content = format!("{id}!");
    }
    for id in ["a", "b", "c"] {
        let content = flow.node(id).map(|n| n.content.clone()).unwrap();
        assert_eq!(content, format!("{id}!"), "content landed on the wrong node");
    }
}

#[test]
fn test_edges_content_mut_pairs_id_with_own_content() {
    let mut flow: Flow<String, Option<String>> = Flow::new();
    for id in ["a", "b"] {
        flow.add_node(Node::new(id, id.to_string())).unwrap();
    }
    flow.add_edge(Edge::new("e1", "a", "b")).unwrap();
    flow.add_edge(Edge::new("e2", "b", "a")).unwrap();
    for (id, content) in flow.edges_content_mut() {
        if id == "e1" {
            *content = Some("dotted".to_string());
        }
    }
    assert!(flow.edge("e1").unwrap().content.is_some());
    assert!(flow.edge("e2").unwrap().content.is_none(), "style landed on the wrong edge");
}

#[test]
fn flow_debug_names_its_parts() {
    let text = format!("{:?}", abc());
    assert!(text.starts_with("Flow"));
    assert!(text.contains("nodes"));
    assert!(text.contains("edges"));
}

#[test]
fn try_set_node_parent_refuses_a_looping_chain() {
    let nodes = vec![
        Node::new("a", ()).with_parent("b"),
        Node::new("b", ()).with_parent("a"),
        Node::new("c", ()),
    ];
    let mut flow: Flow<(), ()> = Flow::with_graph(nodes, vec![]).unwrap();
    // The walk up from "a" loops between "a" and "b" and never meets "c".
    assert!(flow.try_set_node_parent("c", Some("a")).is_none());
    assert_eq!(flow.node("c").unwrap().parent_id, None);
    // Detaching needs no walk.
    assert!(matches!(flow.try_set_node_parent("a", None), Some(Ok(()))));
    assert_eq!(flow.node("a").unwrap().parent_id, None);
    // Now the walk from "b" ends at "a".
    assert!(matches!(flow.try_set_node_parent("c", Some("b")), Some(Ok(()))));
    assert_eq!(flow.node("c").unwrap().parent_id.as_deref(), Some("b"));
}

#[test]
fn connection_with_existing_endpoints_adds_nothing() {
    let nodes = vec![Node::new("a", ()), Node::new("b", ())];
    let mut flow: Flow<(), ()> = Flow::with_graph(nodes, vec![Edge::new("e1", "a", "b")]).unwrap();
    let conn = Connection::new("a", None, "b", None);
    assert_eq!(flow.add_edge_from_connection(conn, ()), None);
    assert_eq!(flow.edges().len(), 1);
    // Other handles make another connection.
    let conn = Connection::new("a", Some("out".to_string()), "b", None);
    assert!(flow.add_edge_from_connection(conn, ()).is_some());
    assert_eq!(flow.edges().len(), 2);
}
