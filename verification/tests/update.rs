use rataflow::{
    ConnectionMode, Edge, Flow, Handle, HandlePosition, HandleType, Node, Reconnectable,
    SelectionReveal,
};

fn flow() -> Flow<(), ()> {
    let nodes = vec![Node::new("a", ()), Node::new("b", ())];
    let edges: Vec<Edge<()>> = vec![Edge::new("e", "a", "b")];
    Flow::with_graph(nodes, edges).unwrap()
}

#[test]
fn node_setters_change_one_flag() {
    let mut f = flow();
    f.set_node_hidden("a", true);
    f.set_node_selectable("a", false);
    f.set_node_deletable("a", false);
    f.set_node_draggable("a", false);
    f.set_node_resizable("a", true);
    f.set_node_connectable("a", false);
    f.set_node_opaque("a", false);
    f.set_node_z_index("a", 7);
    let a = f.node("a").unwrap();
    assert!(a.hidden && !a.selectable && !a.deletable && !a.draggable);
    assert!(a.resizable && !a.connectable && !a.opaque);
    assert_eq!(a.z_index, 7);
    let b = f.node("b").unwrap();
    assert!(!b.hidden && b.selectable && b.deletable && b.draggable && b.connectable);
    assert_eq!(b.z_index, 0);
    // An unknown ID changes nothing.
    f.set_node_hidden("zz", true);
    assert_eq!(f.nodes().len(), 2);
}

#[test]
fn edge_setters_change_one_field() {
    let mut f = flow();
    f.set_edge_hidden("e", true);
    f.set_edge_label("e", Some("hi".to_string()));
    f.set_edge_selectable("e", false);
    f.set_edge_deletable("e", false);
    f.set_edge_animated("e", true);
    f.set_edge_reconnectable("e", Reconnectable::Source);
    let e = f.edge("e").unwrap();
    assert!(e.hidden && !e.selectable && !e.deletable && e.animated);
    assert_eq!(e.label.as_deref(), Some("hi"));
    assert_eq!(e.reconnectable, Reconnectable::Source);
    f.set_edge_label("e", None);
    assert_eq!(f.edge("e").unwrap().label, None);
}

#[test]
fn hiding_handles_materializes_defaults() {
    let mut f = flow();
    assert!(f.node("a").unwrap().handles.is_empty());
    f.set_handles_hidden("a", true);
    let hs = &f.node("a").unwrap().handles;
    assert_eq!(hs.len(), 2);
    assert!(hs.iter().all(|h| h.hidden));
    assert_eq!(hs[0].handle_type, HandleType::Source);
    assert_eq!(hs[1].handle_type, HandleType::Target);

    let node = Node::new("c", ()).with_handles(vec![
        Handle::source(HandlePosition::Right).with_id("out"),
        Handle::target(HandlePosition::Left).with_id("in"),
    ]);
    let mut g: Flow<(), ()> = Flow::with_graph(vec![node], vec![]).unwrap();
    g.set_handle_hidden("c", "in", true);
    let hs = &g.node("c").unwrap().handles;
    assert!(!hs[0].hidden);
    assert!(hs[1].hidden);
}

#[test]
fn replacing_nodes_and_edges() {
    let mut f = flow();
    assert!(f.set_edges(vec![Edge::new("x", "b", "a")]).is_ok());
    assert_eq!(f.edges().len(), 1);
    assert_eq!(f.edges()[0].id, "x");
    // An edge to a missing node is refused and nothing changes.
    assert!(f.set_edges(vec![Edge::new("y", "a", "zz")]).is_err());
    assert_eq!(f.edges()[0].id, "x");
    assert!(f.set_nodes(vec![Node::new("a", ()), Node::new("b", ()), Node::new("c", ())]).is_ok());
    assert_eq!(f.nodes().len(), 3);
    f.retain_edges(|e| e.source != "b");
    assert!(f.edges().is_empty());
}

#[test]
fn flow_builders_set_one_setting() {
    let f: Flow<(), ()> = Flow::new()
        .with_select_nodes_on_drag(false)
        .with_deselect_on_drag(false)
        .with_deselect_on_pane_click(false)
        .with_selection_on_drag(true)
        .with_multi_select_mode(true)
        .with_edges_reconnectable(false)
        .with_auto_pan_on_node_drag(false)
        .with_auto_pan_on_connect(false)
        .with_selection_reveal(SelectionReveal::Center)
        .with_connection_mode(ConnectionMode::Loose)
        .with_elevate_nodes_on_select(false);
    assert!(!f.select_nodes_on_drag && !f.deselect_on_drag && !f.deselect_on_pane_click);
    assert!(f.selection_on_drag && f.multi_select_mode && !f.edges_reconnectable);
    assert!(!f.auto_pan_on_node_drag && !f.auto_pan_on_connect && !f.elevate_nodes_on_select);
    assert_eq!(f.selection_reveal, SelectionReveal::Center);
    assert_eq!(f.connection_mode, ConnectionMode::Loose);
    assert!(!f.locked);
}

#[test]
fn node_and_edge_builders() {
    let n = Node::new("n", ())
        .with_draggable(false)
        .with_expand_parent(true)
        .with_opaque(false);
    assert!(!n.draggable && n.expand_parent && !n.opaque);
    let e: Edge<()> = Edge::new("e", "a", "b")
        .with_source_handle(Some("out".to_string()))
        .with_target_handle(Some("in".to_string()));
    assert_eq!(e.source_handle.as_deref(), Some("out"));
    assert_eq!(e.target_handle.as_deref(), Some("in"));
}
