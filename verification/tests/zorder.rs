use rataflow::{Flow, Node};

fn flow(nodes: Vec<Node<()>>) -> Flow<(), ()> {
    Flow::with_graph(nodes, vec![]).unwrap()
}

#[test]
fn ties_keep_insertion_order() {
    let f = flow(vec![Node::new("a", ()), Node::new("b", ()), Node::new("c", ())]);
    assert_eq!(f.effective_z_values(), vec![0, 0, 0]);
    assert_eq!(f.z_ordered_indices(), vec![0, 1, 2]);
}

#[test]
fn higher_z_index_draws_later() {
    let f = flow(vec![
        Node::new("a", ()).with_z_index(5),
        Node::new("b", ()).with_z_index(-2),
        Node::new("c", ()),
    ]);
    assert_eq!(f.effective_z_values(), vec![5, -2, 0]);
    assert_eq!(f.z_ordered_indices(), vec![1, 2, 0]);
}

#[test]
fn selected_nodes_are_raised_by_a_thousand() {
    let mut f = flow(vec![Node::new("a", ()).with_z_index(10), Node::new("b", ())]);
    f.select_node("b");
    assert_eq!(f.effective_z_values(), vec![10, 1000]);
    assert_eq!(f.z_ordered_indices(), vec![0, 1]);

    let f = f.with_elevate_nodes_on_select(false);
    assert_eq!(f.effective_z_values(), vec![10, 0]);
    assert_eq!(f.z_ordered_indices(), vec![1, 0]);
}

#[test]
fn children_stay_above_their_parents() {
    let f = flow(vec![
        Node::new("child", ()).with_parent("parent"),
        Node::new("parent", ()).with_z_index(7),
        Node::new("grandchild", ()).with_parent("child").with_z_index(3),
    ]);
    assert_eq!(f.effective_z_values(), vec![8, 7, 9]);
    assert_eq!(f.z_ordered_indices(), vec![1, 0, 2]);
}

#[test]
fn a_child_keeps_its_own_higher_z() {
    let f = flow(vec![Node::new("p", ()), Node::new("c", ()).with_parent("p").with_z_index(50)]);
    assert_eq!(f.effective_z_values(), vec![0, 50]);
}
