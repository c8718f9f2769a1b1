use rataflow::{
    ConnectionDrag, ControlsAction, Edge, EventResponse, Flow, FlowAction, FlowEvent, HandleType,
    KeyCode, KeyEvent, Node, ViewWork,
};

fn make_test_state() -> Flow<(), ()> {
    Flow::with_graph(vec![Node::new("a", ()), Node::new("b", ())], vec![]).unwrap()
}

fn make_test_state_with_edges() -> Flow<(), ()> {
    let edges: Vec<Edge<()>> = vec![Edge::new("e1", "a", "b")];
    Flow::with_graph(vec![Node::new("a", ()), Node::new("b", ())], edges).unwrap()
}

fn make_locked_state() -> Flow<(), ()> {
    make_test_state().with_locked(true)
}

fn apply(flow: &mut Flow<(), ()>, action: FlowAction) -> EventResponse {
    flow.apply(action, &ConnectionDrag::Idle).response
}

fn selection_changed(nodes: &[&str], edges: &[&str]) -> FlowEvent {
    FlowEvent::SelectionChanged {
        node_ids: nodes.iter().map(|s| s.to_string()).collect(),
        edge_ids: edges.iter().map(|s| s.to_string()).collect(),
    }
}

#[test]
fn test_locked_mutation_actions_return_not_handled() {
    let mut state = make_locked_state();
    for action in [
        FlowAction::SelectNext,
        FlowAction::SelectPrev,
        FlowAction::SelectUp,
        FlowAction::SelectDown,
        FlowAction::SelectLeft,
        FlowAction::SelectRight,
        FlowAction::ClearSelection,
        FlowAction::ToggleMultiSelect,
        FlowAction::Delete,
        FlowAction::CancelConnection,
    ] {
        assert_eq!(apply(&mut state, action), EventResponse::NotHandled);
    }
}

#[test]
fn test_locked_viewport_actions_still_work() {
    let mut state = make_locked_state();
    assert_eq!(state.apply(FlowAction::PanLeft, &ConnectionDrag::Idle).view, ViewWork::PanLeft);
    assert_eq!(state.apply(FlowAction::PanRight, &ConnectionDrag::Idle).view, ViewWork::PanRight);
    assert_eq!(
        state.apply(FlowAction::CenterOnSelected, &ConnectionDrag::Idle).view,
        ViewWork::CenterOnSelected
    );
}

#[test]
fn test_delete_selected_nodes_emits_deleted_and_selection_changed() {
    let mut state = make_test_state();
    state.select_node("a");
    let events = apply(&mut state, FlowAction::Delete).into_events();
    assert_eq!(events.len(), 2);
    assert_eq!(
        events[0],
        FlowEvent::Deleted { node_ids: vec!["a".into()], edge_ids: vec![] }
    );
    assert_eq!(events[1], selection_changed(&[], &[]));
}

#[test]
fn test_delete_selected_edges_emits_deleted_and_selection_changed() {
    let mut state = make_test_state_with_edges();
    state.select_edge("e1");
    let events = apply(&mut state, FlowAction::Delete).into_events();
    assert_eq!(events.len(), 2);
    assert_eq!(
        events[0],
        FlowEvent::Deleted { node_ids: vec![], edge_ids: vec!["e1".into()] }
    );
    assert!(matches!(events[1], FlowEvent::SelectionChanged { .. }));
}

#[test]
fn test_delete_both_nodes_and_edges_emits_deleted() {
    let nodes = vec![Node::new("a", ()), Node::new("b", ()), Node::new("c", ())];
    let edges: Vec<Edge<()>> = vec![Edge::new("e1", "a", "b"), Edge::new("e2", "b", "c")];
    let mut state: Flow<(), ()> = Flow::with_graph(nodes, edges).unwrap();
    state.toggle_node_selection("a");
    state.toggle_edge_selection("e2");
    let events = apply(&mut state, FlowAction::Delete).into_events();
    assert!(events.len() >= 2);
    match &events[0] {
        FlowEvent::Deleted { node_ids, edge_ids } => {
            assert_eq!(node_ids, &vec!["a".to_string()]);
            assert_eq!(edge_ids, &vec!["e2".to_string()]);
        }
        other => panic!("Expected Deleted event, got {:?}", other),
    }
    assert!(matches!(events[1], FlowEvent::SelectionChanged { .. }));
}

#[test]
fn test_delete_nothing_selected_returns_handled() {
    let mut state = make_test_state();
    assert_eq!(apply(&mut state, FlowAction::Delete), EventResponse::Handled);
}

#[test]
fn test_select_next_emits_selection_changed() {
    let mut state = make_test_state();
    let events = apply(&mut state, FlowAction::SelectNext).into_events();
    assert_eq!(events, vec![selection_changed(&["a"], &[])]);
}

#[test]
fn test_select_prev_emits_selection_changed() {
    let mut state = make_test_state();
    let events = apply(&mut state, FlowAction::SelectPrev).into_events();
    assert_eq!(events, vec![selection_changed(&["b"], &[])]);
}

#[test]
fn test_clear_selection_emits_selection_changed() {
    let mut state = make_test_state();
    state.select_node("a");
    let events = apply(&mut state, FlowAction::ClearSelection).into_events();
    assert_eq!(events, vec![selection_changed(&[], &[])]);
}

#[test]
fn test_cancel_connection_when_creating_emits_connection_cancelled() {
    let mut state = make_test_state();
    state.set_edge_preview_raw("a".to_string(), Some("src".to_string()), HandleType::Source);
    let step = state.apply(FlowAction::CancelConnection, &ConnectionDrag::Creating);
    assert!(step.end_drag);
    assert_eq!(step.response.into_events(), vec![FlowEvent::ConnectionCancelled]);
    assert!(state.edge_preview().is_none());
}

#[test]
fn test_cancel_connection_when_idle_returns_handled() {
    let mut state = make_test_state();
    assert_eq!(apply(&mut state, FlowAction::CancelConnection), EventResponse::Handled);
}

#[test]
fn cancel_reconnection_reports_the_edge() {
    let mut state = make_test_state_with_edges();
    let drag = ConnectionDrag::Reconnecting { edge_id: "e1".to_string() };
    let step = state.apply(FlowAction::CancelConnection, &drag);
    assert!(step.end_drag);
    assert_eq!(
        step.response.into_events(),
        vec![FlowEvent::ReconnectionCancelled { edge_id: "e1".to_string() }]
    );
}

#[test]
fn test_selection_changed_suppressed_when_unchanged() {
    let mut state = make_test_state();
    let events = apply(&mut state, FlowAction::SelectNext).into_events();
    assert_eq!(events.len(), 1);
    assert!(matches!(events[0], FlowEvent::SelectionChanged { .. }));
    assert!(matches!(apply(&mut state, FlowAction::SelectNext), EventResponse::Event(_)));
    assert!(matches!(apply(&mut state, FlowAction::ClearSelection), EventResponse::Event(_)));
    assert_eq!(apply(&mut state, FlowAction::ClearSelection), EventResponse::Handled);
}

#[test]
fn test_select_next_single_node_no_change() {
    let mut state: Flow<(), ()> = Flow::with_graph(vec![Node::new("only", ())], vec![]).unwrap();
    assert!(matches!(apply(&mut state, FlowAction::SelectNext), EventResponse::Event(_)));
    assert_eq!(apply(&mut state, FlowAction::SelectNext), EventResponse::Handled);
}

#[test]
fn toggle_multi_select_flips_the_mode() {
    let mut state = make_test_state();
    assert!(!state.multi_select_mode);
    assert_eq!(apply(&mut state, FlowAction::ToggleMultiSelect), EventResponse::Handled);
    assert!(state.multi_select_mode);
}

#[test]
fn spatial_navigation_is_left_to_the_viewport() {
    let mut state = make_test_state();
    let step = state.apply(FlowAction::SelectUp, &ConnectionDrag::Idle);
    assert_eq!(step.view, ViewWork::Navigate(rataflow::Direction::Up));
    assert_eq!(step.response, EventResponse::Handled);
}

#[test]
fn key_events_go_through_the_default_bindings() {
    let mut state = make_test_state();
    let step = state.handle_key_event(KeyEvent::new(KeyCode::Tab), &ConnectionDrag::Idle);
    assert_eq!(step.response.into_events(), vec![selection_changed(&["a"], &[])]);
    let step = state.handle_key_event(KeyEvent::new(KeyCode::Char('z')), &ConnectionDrag::Idle);
    assert_eq!(step.response, EventResponse::NotHandled);
}

#[test]
fn controls_toggle_lock_and_leave_zoom_to_the_viewport() {
    let mut state = make_test_state();
    let step = state.apply_controls_action(ControlsAction::ToggleLock);
    assert_eq!(step.response, EventResponse::Handled);
    assert!(state.locked);
    let step = state.handle_controls_key_event(KeyEvent::new(KeyCode::Char('+')));
    assert_eq!(step.view, ViewWork::ZoomIn);
    let step = state.handle_controls_key_event(KeyEvent::new(KeyCode::Char('x')));
    assert_eq!(step.response, EventResponse::NotHandled);
}

#[test]
fn events_of_a_response() {
    assert!(EventResponse::Handled.events().is_empty());
    assert!(EventResponse::NotHandled.into_events().is_empty());
    let r = EventResponse::Event(vec![FlowEvent::ConnectionCancelled]);
    assert_eq!(r.events().len(), 1);
}

#[test]
fn test_tick_advances_time() {
    let mut state: Flow<(), ()> = Flow::with_graph(vec![Node::new("a", ())], vec![]).unwrap();
    assert_eq!(state.animation_elapsed_ms(), 0);
    state.tick_animation(50, 8);
    assert_eq!(state.animation_elapsed_ms(), 50);
    state.tick_animation(30, 8);
    assert_eq!(state.animation_elapsed_ms(), 80);
}

#[test]
fn test_tick_resets_periodically() {
    let mut state: Flow<(), ()> = Flow::with_graph(vec![Node::new("a", ())], vec![]).unwrap();
    let cycle_ms = 8 * state.animation_speed_ms;
    state.tick_animation(cycle_ms + 50, 8);
    assert_eq!(state.animation_elapsed_ms(), 50);
}

#[test]
fn tick_wraps_round_before_folding() {
    let mut state: Flow<(), ()> = Flow::new().with_animation_speed(0);
    state.tick_animation(7, 3);
    assert_eq!(state.animation_elapsed_ms(), 1);
    state.tick_animation(u64::MAX, 3);
    assert_eq!(state.animation_elapsed_ms(), 0);
}
