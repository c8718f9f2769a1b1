use rataflow::{
    Edge, EventResponse, Flow, FlowEvent, Gesture, HandleType, MouseHit, Node, Reconnectable,
};

fn make_test_state() -> Flow<(), ()> {
    let edges: Vec<Edge<()>> = vec![Edge::new("e1", "a", "b")];
    Flow::with_graph(vec![Node::new("a", ()), Node::new("b", ())], edges).unwrap()
}

fn handle_hit(node: &str, handle: Option<&str>, t: HandleType) -> MouseHit {
    MouseHit::Handle { node_id: node.to_string(), handle_id: handle.map(|s| s.to_string()), handle_type: t }
}

#[test]
fn pressing_a_source_handle_starts_a_connection() {
    let mut flow = make_test_state();
    flow.snapshot_selection();
    let press = flow.press(handle_hit("a", None, HandleType::Source), true, false, true);
    assert!(matches!(press.gesture, Some(Gesture::CreatingConnection)));
    assert_eq!(
        press.events[0],
        FlowEvent::ConnectionStarted { node_id: "a".to_string(), handle_id: None }
    );
    assert!(matches!(press.events[1], FlowEvent::SelectionChanged { .. }));
    assert!(flow.node("a").unwrap().selected);
    assert_eq!(flow.edge_preview().unwrap().from_node_id, "a");
}

#[test]
fn pressing_a_target_handle_in_strict_mode_selects_the_node() {
    let mut flow = make_test_state();
    flow.snapshot_selection();
    let press = flow.press(handle_hit("b", None, HandleType::Target), true, false, true);
    assert!(matches!(press.gesture, Some(Gesture::AwaitingNodeClick { ref node_id }) if node_id == "b"));
    assert!(flow.edge_preview().is_none());
    assert!(flow.node("b").unwrap().selected);
}

#[test]
fn pressing_the_end_of_a_selected_edge_starts_a_reconnection() {
    let mut flow = make_test_state();
    flow.select_edge("e1");
    flow.snapshot_selection();
    let press = flow.press(handle_hit("b", None, HandleType::Target), true, false, true);
    assert!(matches!(press.gesture, Some(Gesture::ReconnectingEdge { ref edge_id }) if edge_id == "e1"));
    assert_eq!(
        press.events[0],
        FlowEvent::ReconnectionStarted { edge_id: "e1".to_string(), handle_type: HandleType::Target }
    );
    let ep = flow.edge_preview().unwrap();
    assert_eq!(ep.from_node_id, "a");
    assert_eq!(ep.from_handle_type, HandleType::Source);
}

#[test]
fn reconnection_needs_a_reconnectable_edge() {
    let edges: Vec<Edge<()>> =
        vec![Edge::new("e1", "a", "b").with_reconnectable(Reconnectable::Disabled)];
    let mut flow: Flow<(), ()> =
        Flow::with_graph(vec![Node::new("a", ()), Node::new("b", ())], edges).unwrap();
    flow.select_edge("e1");
    assert!(flow.find_reconnectable_edge_at("b", None, HandleType::Target).is_none());
}

#[test]
fn two_matching_edges_are_ambiguous() {
    let edges: Vec<Edge<()>> = vec![
        Edge::new("e1", "a", "b"),
        Edge::new("e2", "c", "b"),
    ];
    let mut flow: Flow<(), ()> = Flow::with_graph(
        vec![Node::new("a", ()), Node::new("b", ()), Node::new("c", ())],
        edges,
    )
    .unwrap();
    flow.select_all_edges();
    assert!(flow.find_reconnectable_edge_at("b", None, HandleType::Target).is_none());
    flow.toggle_edge_selection("e2");
    let found = flow.find_reconnectable_edge_at("b", None, HandleType::Target).unwrap();
    assert_eq!(found, ("e1".to_string(), "a".to_string(), None));
}

#[test]
fn pressing_a_node_starts_a_move_and_release_reports_the_click() {
    let mut flow = make_test_state();
    flow.snapshot_selection();
    let press = flow.press(MouseHit::Node { node_id: "a".to_string() }, true, false, false);
    let gesture = press.gesture.unwrap();
    assert!(matches!(gesture,
        Gesture::MovingNode { ref node_id, drag_started: false, selected: false } if node_id == "a"));
    assert!(press.events.is_empty());
    assert!(!flow.node("a").unwrap().selected);

    let events = flow.release(gesture).into_events();
    assert_eq!(events[0], FlowEvent::NodeClicked { node_id: "a".to_string() });
    assert!(matches!(events[1], FlowEvent::SelectionChanged { .. }));
    assert!(flow.node("a").unwrap().selected);
}

#[test]
fn dragging_past_the_threshold_selects_and_reports() {
    let mut flow = make_test_state();
    flow.snapshot_selection();
    let still = flow.drag_node("a", false, false, false);
    assert_eq!(still.response, EventResponse::Handled);
    assert!(!still.moved);

    let step = flow.drag_node("a", false, false, true);
    assert!(step.moved && step.drag_started && step.selected);
    let events = step.response.into_events();
    assert_eq!(events[0], FlowEvent::NodeDragStarted { node_id: "a".to_string() });

    let next = flow.drag_node("a", true, true, true);
    assert_eq!(next.response.into_events()[0], FlowEvent::NodeDragged { node_id: "a".to_string() });

    let end = flow.release(Gesture::MovingNode { node_id: "a".to_string(), drag_started: true, selected: true });
    assert_eq!(end.into_events(), vec![FlowEvent::NodeDragEnded { node_id: "a".to_string() }]);
}

#[test]
fn pressing_an_edge_selects_and_reports_it() {
    let mut flow = make_test_state();
    flow.snapshot_selection();
    let press = flow.press(MouseHit::Edge { edge_id: "e1".to_string() }, true, false, true);
    assert!(press.gesture.is_none());
    assert_eq!(press.events[0], FlowEvent::EdgeClicked { edge_id: "e1".to_string() });
    assert!(flow.edge("e1").unwrap().selected);
}

#[test]
fn pressing_the_pane_clears_and_pans() {
    let mut flow = make_test_state();
    flow.select_node("a");
    flow.snapshot_selection();
    let press = flow.press(MouseHit::Nothing, true, false, true);
    assert!(press.pane_clicked);
    assert!(matches!(press.gesture, Some(Gesture::Panning)));
    assert!(!flow.node("a").unwrap().selected);
    assert!(matches!(press.events[0], FlowEvent::SelectionChanged { .. }));
}

#[test]
fn releasing_a_connection_completes_or_cancels() {
    let mut flow = make_test_state();
    let cancelled = flow.release(Gesture::CreatingConnection);
    assert_eq!(cancelled.into_events(), vec![FlowEvent::ConnectionCancelled]);

    let accept = |_: &rataflow::Connection| true;
    assert!(flow.start_edge_preview("b", None, HandleType::Source));
    assert!(flow.preview_to_handle("a", None, &accept));
    let events = flow.release(Gesture::CreatingConnection).into_events();
    match &events[0] {
        FlowEvent::ConnectionCompleted(c) => {
            assert_eq!(c.source, "b");
            assert_eq!(c.target, "a");
        }
        other => panic!("unexpected {:?}", other),
    }
}

#[test]
fn context_menu_events_name_what_was_hit() {
    let ev = Flow::<(), ()>::context_menu_event(MouseHit::Node { node_id: "a".to_string() });
    assert_eq!(ev, Some(FlowEvent::NodeContextMenu { node_id: "a".to_string() }));
    assert_eq!(Flow::<(), ()>::context_menu_event(MouseHit::Nothing), None);
}

#[test]
fn drag_without_select_on_drag_keeps_the_selection() {
    let mut flow = make_test_state().with_select_nodes_on_drag(false).with_deselect_on_drag(false);
    flow.select_node("b");
    flow.snapshot_selection();
    let step = flow.drag_node("a", false, false, true);
    assert!(step.moved && step.drag_started && !step.selected);
    assert!(!flow.node("a").unwrap().selected);
    assert!(flow.node("b").unwrap().selected);
}

#[test]
fn drag_without_select_on_drag_may_only_clear() {
    let mut flow = make_test_state().with_select_nodes_on_drag(false);
    flow.select_node("b");
    flow.snapshot_selection();
    let step = flow.drag_node("a", false, false, true);
    assert!(!step.selected);
    assert!(!flow.node("a").unwrap().selected);
    assert!(!flow.node("b").unwrap().selected);
}

#[test]
fn pane_press_keeps_selection_when_told_to() {
    let mut flow = make_test_state().with_deselect_on_pane_click(false);
    flow.select_node("a");
    flow.snapshot_selection();
    let press = flow.press(MouseHit::Nothing, true, false, true);
    assert!(press.pane_clicked);
    assert!(matches!(press.gesture, Some(Gesture::Panning)));
    assert!(flow.node("a").unwrap().selected);
}

#[test]
fn multi_select_press_flips_one_node() {
    let mut flow = make_test_state();
    flow.select_node("a");
    flow.snapshot_selection();
    let press = flow.press(MouseHit::Node { node_id: "b".to_string() }, true, true, true);
    assert!(matches!(press.gesture, Some(Gesture::AwaitingNodeClick { .. })));
    assert!(flow.node("a").unwrap().selected);
    assert!(flow.node("b").unwrap().selected);
    flow.snapshot_selection();
    flow.press(MouseHit::Node { node_id: "a".to_string() }, true, true, true);
    assert!(!flow.node("a").unwrap().selected);
    assert!(flow.node("b").unwrap().selected);
}

#[test]
fn pick_reports_the_hit_without_changing_anything() {
    let nodes = vec![
        Node::new("a", ()).with_handles(vec![
            rataflow::Handle::source(rataflow::HandlePosition::Right).with_id("out"),
        ]),
        Node::new("b", ()),
    ];
    let edges: Vec<Edge<()>> = vec![Edge::new("e1", "a", "b")];
    let flow: Flow<(), ()> = Flow::with_graph(nodes, edges).unwrap();
    assert_eq!(
        flow.pick(handle_hit("a", Some("out"), HandleType::Source)),
        rataflow::Pick::Handle { node_id: "a", handle_id: Some("out"), handle_type: HandleType::Source }
    );
    // An ID no handle of that type carries is not reported.
    assert_eq!(
        flow.pick(handle_hit("a", Some("in"), HandleType::Target)),
        rataflow::Pick::Handle { node_id: "a", handle_id: None, handle_type: HandleType::Target }
    );
    assert_eq!(flow.pick(MouseHit::Node { node_id: "b".to_string() }), rataflow::Pick::Node { node_id: "b" });
    assert_eq!(flow.pick(MouseHit::Edge { edge_id: "e1".to_string() }), rataflow::Pick::Edge { edge_id: "e1" });
    assert_eq!(flow.pick(MouseHit::Nothing), rataflow::Pick::Nothing);
    assert!(!flow.node("a").unwrap().selected);
}

#[test]
fn set_node_parent_reports_a_missing_node_before_walking() {
    let nodes = vec![
        Node::new("a", ()).with_parent("b"),
        Node::new("b", ()).with_parent("a"),
    ];
    let mut flow: Flow<(), ()> = Flow::with_graph(nodes, vec![]).unwrap();
    assert!(matches!(
        flow.set_node_parent("zz", Some("a")),
        Err(rataflow::Error::NodeNotFound { node_id }) if node_id == "zz"
    ));
    assert!(matches!(
        flow.try_set_node_parent("zz", Some("a")),
        Some(Err(rataflow::Error::NodeNotFound { .. }))
    ));
}

#[test]
fn test_locked_mouse_down_starts_panning() {
    let mut state = make_test_state().with_locked(true);
    state.select_node("a");
    let route = state.route_mouse(rataflow::MouseEventKind::Down(rataflow::MouseButton::Left));
    // Starts panning, selects nothing.
    assert_eq!(route, rataflow::MouseRoute::StartPanning);
    assert!(state.node("a").unwrap().selected);
    assert!(!state.node("b").unwrap().selected);
}

#[test]
fn mouse_routes_on_an_unlocked_flow() {
    let mut state = make_test_state();
    assert_eq!(state.route_mouse(rataflow::MouseEventKind::Down(rataflow::MouseButton::Left)), rataflow::MouseRoute::LeftDown);
    assert_eq!(state.route_mouse(rataflow::MouseEventKind::Up(rataflow::MouseButton::Left)), rataflow::MouseRoute::LeftUp);
    assert_eq!(state.route_mouse(rataflow::MouseEventKind::Drag(rataflow::MouseButton::Right)), rataflow::MouseRoute::RightDrag);
    assert_eq!(state.route_mouse(rataflow::MouseEventKind::ScrollDown), rataflow::MouseRoute::ZoomOut);
    assert_eq!(state.route_mouse(rataflow::MouseEventKind::Moved), rataflow::MouseRoute::Ignore);
    assert!(!state.starts_selection_box(&MouseHit::Nothing));
    let boxed = make_test_state().with_selection_on_drag(true);
    assert!(boxed.starts_selection_box(&MouseHit::Nothing));
    assert!(!boxed.starts_selection_box(&MouseHit::Node { node_id: "a".to_string() }));
}
