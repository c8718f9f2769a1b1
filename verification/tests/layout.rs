use rataflow::state::handles::get_handle_index;
use rataflow::{ConnectionMode, Edge, Error, Flow, Handle, HandlePosition, HandleType, LayoutDirection, Node};

fn two_nodes_one_edge() -> Flow<(), ()> {
    let edges: Vec<Edge<()>> = vec![Edge::new("e1", "a", "b")];
    Flow::with_graph(vec![Node::new("a", ()), Node::new("b", ())], edges).unwrap()
}

fn laid_out(flow: &Flow<(), ()>) -> Vec<usize> {
    let mut v: Vec<usize> = Vec::new();
    for (s, t) in flow.layout_edge_pairs() {
        for i in [s as usize, t as usize] {
            if !v.contains(&i) {
                v.push(i);
            }
        }
    }
    v
}

#[test]
fn vertical_layout_sets_bottom_top_handles() {
    let mut flow = two_nodes_one_edge();
    let ids = laid_out(&flow);
    flow.set_layout_handle_positions(&ids, LayoutDirection::TopToBottom);
    let a = flow.node("a").unwrap();
    let b = flow.node("b").unwrap();
    assert_eq!(a.source_position, HandlePosition::Bottom);
    assert_eq!(a.target_position, HandlePosition::Top);
    assert_eq!(b.source_position, HandlePosition::Bottom);
    assert_eq!(b.target_position, HandlePosition::Top);
}

#[test]
fn horizontal_layout_sets_right_left_handles() {
    let mut flow = two_nodes_one_edge();
    let ids = laid_out(&flow);
    flow.set_layout_handle_positions(&ids, LayoutDirection::LeftToRight);
    let a = flow.node("a").unwrap();
    assert_eq!(a.source_position, HandlePosition::Right);
    assert_eq!(a.target_position, HandlePosition::Left);
}

#[test]
fn layout_leaves_unlisted_nodes_alone() {
    let mut flow: Flow<(), ()> =
        Flow::with_graph(vec![Node::new("a", ()), Node::new("lone", ())], vec![]).unwrap();
    flow.set_layout_handle_positions(&vec![0, 7], LayoutDirection::BottomToTop);
    assert_eq!(flow.node("a").unwrap().source_position, HandlePosition::Top);
    assert_eq!(flow.node("a").unwrap().target_position, HandlePosition::Bottom);
    assert_eq!(flow.node("lone").unwrap().source_position, HandlePosition::Right);
}

#[test]
fn layout_edge_pairs_follow_edge_order() {
    let edges: Vec<Edge<()>> = vec![Edge::new("e1", "c", "a"), Edge::new("e2", "a", "b")];
    let flow: Flow<(), ()> = Flow::with_graph(
        vec![Node::new("a", ()), Node::new("b", ()), Node::new("c", ())],
        edges,
    )
    .unwrap();
    assert_eq!(flow.layout_edge_pairs(), vec![(2, 0), (0, 1)]);
}

#[test]
fn directions_give_opposite_sides() {
    assert_eq!(LayoutDirection::default(), LayoutDirection::TopToBottom);
    assert_eq!(LayoutDirection::RightToLeft.source_position(), HandlePosition::Left);
    assert_eq!(LayoutDirection::RightToLeft.target_position(), HandlePosition::Right);
    assert_eq!(LayoutDirection::BottomToTop.target_position(), HandlePosition::Bottom);
}

#[test]
fn from_edges_deduplicates_nodes() {
    let flow: Flow<String, ()> = Flow::from_edges(&[("A", "B"), ("B", "C"), ("A", "C")]).unwrap();
    assert_eq!(flow.nodes().len(), 3);
    assert!(flow.node("A").is_some());
    assert!(flow.node("B").is_some());
    assert!(flow.node("C").is_some());
    assert_eq!(flow.nodes()[2].content, "C");
    assert_eq!(flow.edges()[0].id, "A:<>B:");
}

#[test]
fn from_edges_with_labels() {
    let flow: Flow<String, ()> =
        Flow::from_edges(&[("A", "B", "label1"), ("B", "C", "label2")]).unwrap();
    assert_eq!(flow.edges().len(), 2);
    assert_eq!(flow.edges()[0].label.as_deref(), Some("label1"));
    assert_eq!(flow.edges()[1].label.as_deref(), Some("label2"));
}

#[test]
fn from_edges_refuses_repeats_and_loops() {
    let dup = Flow::<String, ()>::from_edges(&[("A", "B"), ("A", "B")]);
    assert!(matches!(dup, Err(Error::DuplicateEdgeId { edge_id }) if edge_id == "A:<>B:"));
    let looped = Flow::<String, ()>::from_edges(&[("A", "B"), ("C", "C")]);
    assert!(matches!(looped, Err(Error::SelfReferentialEdge { node_id, .. }) if node_id == "C"));
}

#[test]
fn test_get_mode_aware_lookup() {
    let handles = vec![
        Handle::source(HandlePosition::Right).with_id("src"),
        Handle::target(HandlePosition::Left).with_id("tgt"),
    ];
    assert_eq!(get_handle_index(&handles, Some("src"), HandleType::Source, ConnectionMode::Strict), Some(0));
    assert_eq!(get_handle_index(&handles, Some("tgt"), HandleType::Source, ConnectionMode::Strict), Some(0));
    assert_eq!(get_handle_index(&handles, Some("tgt"), HandleType::Source, ConnectionMode::Loose), Some(1));
    let only_sources = vec![Handle::source(HandlePosition::Right)];
    assert_eq!(get_handle_index(&only_sources, None, HandleType::Target, ConnectionMode::Strict), None);
}

#[test]
fn resolve_edge_handles_finds_both_ends() {
    let a = Node::new("a", ()).with_handles(vec![
        Handle::source(HandlePosition::Right).with_id("o1"),
        Handle::source(HandlePosition::Bottom).with_id("o2"),
    ]);
    let edges: Vec<Edge<()>> = vec![Edge::new("e", "a", "b").with_source_handle(Some("o2".to_string()))];
    let flow: Flow<(), ()> = Flow::with_graph(vec![a, Node::new("b", ())], edges).unwrap();
    assert_eq!(flow.resolve_edge_handles(0), Some((0, 1, 1, 1)));
}
