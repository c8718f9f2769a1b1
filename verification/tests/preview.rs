use rataflow::{Connection, ConnectionMode, Edge, Flow, Handle, HandlePosition, HandleType, Node};

fn accept_all(_: &Connection) -> bool {
    true
}

fn two_nodes() -> Flow<(), ()> {
    Flow::with_graph(vec![Node::new("a", ()), Node::new("b", ())], vec![]).unwrap()
}

fn multi_handle_flow() -> Flow<(), ()> {
    let a = Node::new("a", ()).with_handles(vec![
        Handle::source(HandlePosition::Right).with_id("o1"),
        Handle::source(HandlePosition::Bottom).with_id("o2"),
        Handle::target(HandlePosition::Left).with_id("i"),
    ]);
    let b = Node::new("b", ()).with_handles(vec![
        Handle::target(HandlePosition::Left).with_id("t1"),
        Handle::target(HandlePosition::Top).with_id("t2"),
        Handle::target(HandlePosition::Bottom).with_id("t3").with_hidden(true),
        Handle::source(HandlePosition::Right).with_id("s"),
    ]);
    Flow::with_graph(vec![a, b], vec![]).unwrap()
}

#[test]
fn start_preview_requires_a_connectable_start_handle() {
    let mut flow = two_nodes();
    assert!(!flow.start_edge_preview("missing", None, HandleType::Source));
    assert!(flow.edge_preview().is_none());
    assert!(flow.start_edge_preview("a", None, HandleType::Source));
    let ep = flow.edge_preview().unwrap();
    assert_eq!(ep.from_node_id, "a");
    assert_eq!(ep.from_handle_id, None);
    assert_eq!(ep.to_node_id, None);
    assert_eq!(ep.is_valid, None);

    let mut flow: Flow<(), ()> = Flow::with_graph(
        vec![Node::new("a", ()).with_connectable(false), Node::new("b", ())],
        vec![],
    )
    .unwrap();
    assert!(!flow.start_edge_preview("a", None, HandleType::Source));
}

#[test]
fn preview_to_default_handle_then_complete() {
    let mut flow = two_nodes();
    assert!(flow.start_edge_preview("a", None, HandleType::Source));
    assert!(flow.preview_to_handle("b", None, &accept_all));
    let ep = flow.edge_preview().unwrap();
    assert_eq!(ep.to_node_id.as_deref(), Some("b"));
    assert_eq!(ep.is_valid, Some(true));
    let conn = flow.complete_edge_preview().unwrap();
    assert_eq!(conn.source, "a");
    assert_eq!(conn.target, "b");
    assert!(flow.edge_preview().is_none());
}

#[test]
fn preview_from_a_target_handle_is_turned_round() {
    let mut flow = two_nodes().with_connection_mode(ConnectionMode::Strict);
    assert!(flow.start_edge_preview("b", None, HandleType::Target));
    assert!(flow.preview_to_handle("a", None, &accept_all));
    let conn = flow.complete_edge_preview().unwrap();
    assert_eq!(conn.source, "a");
    assert_eq!(conn.target, "b");
}

#[test]
fn preview_cannot_aim_at_its_own_node_or_a_hidden_one() {
    let mut flow: Flow<(), ()> = Flow::with_graph(
        vec![Node::new("a", ()), Node::new("h", ()).with_hidden(true)],
        vec![],
    )
    .unwrap();
    assert!(!flow.preview_to_handle("a", None, &accept_all));
    assert!(flow.start_edge_preview("a", None, HandleType::Source));
    assert!(!flow.preview_to_handle("a", None, &accept_all));
    assert!(!flow.preview_to_handle("h", None, &accept_all));
    assert_eq!(flow.edge_preview().unwrap().to_node_id, None);
}

#[test]
fn strict_mode_only_offers_opposite_handles() {
    let mut flow = multi_handle_flow();
    assert!(flow.start_edge_preview("a", Some("o1"), HandleType::Source));
    assert!(!flow.preview_to_handle("b", Some("s"), &accept_all));
    assert!(flow.preview_to_handle("b", Some("t2"), &accept_all));
    assert_eq!(flow.edge_preview().unwrap().to_handle_id.as_deref(), Some("t2"));
    // Hidden handles are never offered.
    assert!(!flow.preview_to_handle("b", Some("t3"), &accept_all));
}

#[test]
fn loose_mode_offers_every_handle() {
    let mut flow = multi_handle_flow().with_connection_mode(ConnectionMode::Loose);
    assert!(flow.start_edge_preview("a", Some("o1"), HandleType::Source));
    assert!(flow.preview_to_handle("b", Some("s"), &accept_all));
    // Without an ID, the first candidate is a source handle.
    assert!(flow.preview_to_handle("b", None, &accept_all));
    assert_eq!(flow.edge_preview().unwrap().to_handle_id.as_deref(), Some("s"));
}

#[test]
fn cycling_targets_wraps_round() {
    let mut flow = multi_handle_flow();
    assert!(flow.start_edge_preview("a", Some("o1"), HandleType::Source));
    assert!(flow.preview_to_handle("b", None, &accept_all));
    assert_eq!(flow.edge_preview().unwrap().to_handle_id.as_deref(), Some("t1"));
    assert!(flow.cycle_to_handle(true, &accept_all));
    assert_eq!(flow.edge_preview().unwrap().to_handle_id.as_deref(), Some("t2"));
    assert!(flow.cycle_to_handle(true, &accept_all));
    assert_eq!(flow.edge_preview().unwrap().to_handle_id.as_deref(), Some("t1"));
    assert!(flow.cycle_to_handle(false, &accept_all));
    assert_eq!(flow.edge_preview().unwrap().to_handle_id.as_deref(), Some("t2"));
}

#[test]
fn cycling_sources_wraps_round() {
    let mut flow = multi_handle_flow();
    assert!(flow.start_edge_preview("a", Some("o1"), HandleType::Source));
    assert!(flow.cycle_from_handle(true, &accept_all));
    assert_eq!(flow.edge_preview().unwrap().from_handle_id.as_deref(), Some("o2"));
    assert!(flow.cycle_from_handle(true, &accept_all));
    assert_eq!(flow.edge_preview().unwrap().from_handle_id.as_deref(), Some("o1"));
    // A single start handle of the type cannot cycle.
    let mut single = two_nodes();
    assert!(single.start_edge_preview("a", None, HandleType::Source));
    assert!(!single.cycle_from_handle(true, &accept_all));
}

#[test]
fn an_existing_connection_is_invalid_and_not_completed() {
    let edges: Vec<Edge<()>> = vec![Edge::new("e", "a", "b")];
    let mut flow: Flow<(), ()> =
        Flow::with_graph(vec![Node::new("a", ()), Node::new("b", ())], edges).unwrap();
    assert!(flow.start_edge_preview("a", None, HandleType::Source));
    assert!(flow.preview_to_handle("b", None, &accept_all));
    assert_eq!(flow.edge_preview().unwrap().is_valid, Some(false));
    assert!(flow.complete_edge_preview().is_none());
    assert!(flow.edge_preview().is_some());
}

#[test]
fn the_validator_decides_new_connections() {
    let mut flow = two_nodes();
    let refuse_b = |c: &Connection| c.target != "b";
    assert!(flow.start_edge_preview("a", None, HandleType::Source));
    assert!(flow.preview_to_handle("b", None, &refuse_b));
    assert_eq!(flow.edge_preview().unwrap().is_valid, Some(false));
    assert!(flow.take_edge_preview_connection().is_none());
    assert!(flow.edge_preview().is_none());
}

#[test]
fn set_preview_target_resolves_or_clears() {
    let mut flow = two_nodes();
    assert!(!flow.set_preview_target(Some("b"), None, &accept_all));
    flow.set_edge_preview_raw("a".to_string(), None, HandleType::Source);
    assert!(flow.set_preview_target(Some("b"), None, &accept_all));
    assert_eq!(flow.edge_preview().unwrap().is_valid, Some(true));
    assert!(flow.set_preview_target(None, None, &accept_all));
    let ep = flow.edge_preview().unwrap();
    assert_eq!(ep.to_node_id, None);
    assert_eq!(ep.is_valid, None);
    flow.clear_edge_preview();
    assert!(flow.edge_preview().is_none());
}
