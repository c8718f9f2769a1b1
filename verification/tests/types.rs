use rataflow::types::defaults::{bool_true, handle_position_left, handle_position_right};
use rataflow::{
    select_directional, Connection, ConnectionMode, Edge, EdgeMarker, Handle, HandlePosition,
    HandleType, Node, PanMode, Reconnectable, SelectionReveal,
};

#[test]
fn handle_positions() {
    assert_eq!(HandlePosition::Top.opposite(), HandlePosition::Bottom);
    assert_eq!(HandlePosition::Left.opposite().opposite(), HandlePosition::Left);
    assert!(HandlePosition::Left.is_horizontal());
    assert!(!HandlePosition::Left.is_vertical());
    assert!(HandlePosition::Bottom.is_vertical());
    assert_eq!(HandlePosition::Bottom.side_name(), "bottom");
    assert_eq!(HandlePosition::Right.default_id(), "right");
    assert_eq!(HandlePosition::Top.edge_endpoint_render_offset(), (0, -1));
    assert_eq!(HandlePosition::Left.edge_endpoint_render_offset(), (-1, 0));
    assert_eq!(HandlePosition::Right.edge_endpoint_render_offset(), (0, 0));
    assert_eq!(HandleType::Source.opposite(), HandleType::Target);
    assert_eq!(HandleType::Target.opposite().opposite(), HandleType::Target);
}

#[test]
fn handle_builders() {
    let h = Handle::source(HandlePosition::Bottom)
        .with_id("out")
        .with_connectable_end(false)
        .with_hidden(true);
    assert_eq!(h.id.as_deref(), Some("out"));
    assert_eq!(h.handle_type, HandleType::Source);
    assert!(h.connectable && h.connectable_start && !h.connectable_end && h.hidden);
    let t = Handle::target(HandlePosition::Top).with_connectable(false).with_connectable_start(false);
    assert!(!t.connectable && !t.connectable_start);
}

#[test]
fn node_defaults_and_builders() {
    let n: Node<u8> = Node::new("n", 7);
    assert_eq!(n.id, "n");
    assert_eq!(n.content, 7);
    assert!(n.selectable && n.deletable && n.draggable && n.connectable && n.opaque);
    assert!(!n.hidden && !n.selected && !n.resizable && !n.expand_parent);
    assert_eq!(n.source_position, HandlePosition::Right);
    assert_eq!(n.target_position, HandlePosition::Left);
    let mut n = n
        .with_z_index(3)
        .with_resizable(true)
        .with_parent("p")
        .with_source_position(HandlePosition::Bottom)
        .with_target_position(HandlePosition::Top)
        .add_handle(Handle::source(HandlePosition::Left));
    assert_eq!(n.z_index, 3);
    assert!(n.resizable);
    assert_eq!(n.parent_id.as_deref(), Some("p"));
    assert_eq!(n.handles.len(), 1);
    n.ensure_explicit_handles();
    assert_eq!(n.handles.len(), 1);

    let mut plain: Node<()> = Node::new("q", ());
    plain.ensure_explicit_handles();
    assert_eq!(plain.handles.len(), 2);
    assert_eq!(plain.handles[0].handle_type, HandleType::Source);
    assert_eq!(plain.handles[0].position, HandlePosition::Right);
    assert_eq!(plain.handles[1].position, HandlePosition::Left);
}

#[test]
fn edge_queries() {
    let e: Edge<()> = Edge::new("e", "a", "b");
    assert!(e.connects("a", "b") && e.connects("b", "a"));
    assert!(e.connects_directed("a", "b") && !e.connects_directed("b", "a"));
    assert!(e.is_from("a") && e.is_to("b") && !e.is_from("b"));
    let e2 = e.with_content(()).with_label("l").with_animated(true).with_selected(true);
    assert_eq!(e2.label.as_deref(), Some("l"));
    assert!(e2.animated && e2.selected);
    let mapped: Edge<u32> = e2.map_content(|_| 5);
    assert_eq!(mapped.content, 5);
    assert_eq!(mapped.id, "e");
}

#[test]
fn edge_sides_pick_the_default_handle_ids() {
    let e: Edge<()> = Edge::new("e", "a", "b")
        .with_source_side(HandlePosition::Bottom)
        .with_target_side(HandlePosition::Top);
    assert_eq!(e.source_handle.as_deref(), Some("bottom"));
    assert_eq!(e.target_handle.as_deref(), Some("top"));
}

#[test]
fn reconnectable_ends() {
    assert!(Reconnectable::Inherit.allows(HandleType::Source, true));
    assert!(!Reconnectable::Inherit.allows(HandleType::Source, false));
    assert!(Reconnectable::Both.allows(HandleType::Target, false));
    assert!(Reconnectable::Source.allows(HandleType::Source, false));
    assert!(!Reconnectable::Source.allows(HandleType::Target, true));
    assert!(!Reconnectable::Disabled.allows(HandleType::Target, true));
}

#[test]
fn markers() {
    assert_eq!(EdgeMarker::default(), EdgeMarker::ArrowClosed);
    assert_eq!(EdgeMarker::Blank.char_for_position(HandlePosition::Left, true), None);
    assert_eq!(EdgeMarker::ArrowClosed.char_for_position(HandlePosition::Left, true), Some('◀'));
    assert_eq!(EdgeMarker::ArrowClosed.char_for_position(HandlePosition::Left, false), Some('▶'));
    assert_eq!(EdgeMarker::Arrow.char_for_position(HandlePosition::Top, false), Some('▽'));
    assert_eq!(EdgeMarker::Circle.char_for_position(HandlePosition::Top, false), Some('●'));
    assert_eq!(EdgeMarker::Custom('x').char_for_position(HandlePosition::Top, false), Some('x'));
    assert_eq!(select_directional(HandlePosition::Bottom, false, 'l', 'r', 't', 'b'), 't');
    for p in [HandlePosition::Top, HandlePosition::Right, HandlePosition::Bottom, HandlePosition::Left] {
        assert_eq!(
            EdgeMarker::Arrow.char_for_position(p, false),
            EdgeMarker::Arrow.char_for_position(p.opposite(), true)
        );
    }
}

#[test]
fn connection_edge_ids() {
    let c = Connection::new("a", None, "b", Some("in".to_string()));
    assert_eq!(c.edge_id(), "a:<>b:in");
    let c = Connection::new("x", Some("o".to_string()), "y", None);
    assert_eq!(c.edge_id(), "x:o<>y:");
}

#[test]
fn policy_defaults() {
    assert_eq!(ConnectionMode::default(), ConnectionMode::Strict);
    assert_eq!(PanMode::default(), PanMode::Free);
    assert_eq!(SelectionReveal::default(), SelectionReveal::EnsureVisible);
    assert!(bool_true());
    assert_eq!(handle_position_right(), HandlePosition::Right);
    assert_eq!(handle_position_left(), HandlePosition::Left);
}
