//! Updating one node or edge, found by ID, in place.

use vstd::prelude::*;
use crate::state::lookup::{find_edge, find_node};
use crate::state::model::{edge_attached, graph_wf, lemma_same_ids_wf};
use crate::state::Flow;
use crate::strs::{opt_chars, opt_is};
use crate::types::{Edge, Handle, HandleType, Node, Reconnectable};

verus! {

/// `s` with `f` applied to every node whose ID is `id`.
pub open spec fn nodes_with<N>(s: Seq<Node<N>>, id: Seq<char>, f: spec_fn(Node<N>) -> Node<N>) -> Seq<Node<N>> {
    Seq::new(s.len(), |i: int| if s[i].id@ == id { f(s[i]) } else { s[i] })
}

/// `s` with `f` applied to every edge whose ID is `id`.
pub open spec fn edges_with<E>(s: Seq<Edge<E>>, id: Seq<char>, f: spec_fn(Edge<E>) -> Edge<E>) -> Seq<Edge<E>> {
    Seq::new(s.len(), |i: int| if s[i].id@ == id { f(s[i]) } else { s[i] })
}

/// A node's handles, with the two default handles when none are defined.
pub open spec fn explicit_handles<N>(n: Node<N>) -> Seq<Handle> {
    if n.handles@.len() == 0 {
        seq![
            Handle::new_spec(n.source_position, HandleType::Source),
            Handle::new_spec(n.target_position, HandleType::Target),
        ]
    } else {
        n.handles@
    }
}

/// The explicit handles of `n` with `hidden` set on those `which` selects.
pub open spec fn handles_hidden_where<N>(n: Node<N>, which: spec_fn(Handle) -> bool, hidden: bool) -> Seq<Handle> {
    Seq::new(explicit_handles(n).len(), |k: int| if which(explicit_handles(n)[k]) {
        Handle { hidden, ..explicit_handles(n)[k] }
    } else {
        explicit_handles(n)[k]
    })
}

/// Sets `hidden` on the handles of `hs` whose ID is `handle_id`, or on all of them.
fn set_handles_hidden_in(hs: &mut Vec<Handle>, handle_id: Option<&str>, hidden: bool)
    ensures
        final(hs)@ == Seq::new(old(hs)@.len(), |k: int| if handle_id is None || opt_chars(old(hs)@[k].id) == Some(handle_id->0@) {
            Handle { hidden, ..old(hs)@[k] }
        } else {
            old(hs)@[k]
        }),
{
    let ghost s = hs@;
    let mut i: usize = 0;
    while i < hs.len()
        invariant
            i <= hs@.len(),
            hs@.len() == s.len(),
            forall|k: int| 0 <= k < i ==> hs@[k] == (if handle_id is None || opt_chars(s[k].id) == Some(handle_id->0@) {
                Handle { hidden, ..s[k] }
            } else {
                s[k]
            }),
            forall|k: int| i <= k < s.len() ==> hs@[k] == s[k],
        decreases hs@.len() - i,
    {
        let hit = match handle_id {
            None => true,
            Some(h) => opt_is(&hs[i].id, Some(h)),
        };
        if hit {
            hs[i].hidden = hidden;
        }
        i = i + 1;
    }
    assert(hs@ =~= Seq::new(s.len(), |k: int| if handle_id is None || opt_chars(s[k].id) == Some(handle_id->0@) {
        Handle { hidden, ..s[k] }
    } else {
        s[k]
    }));
}

/// Updating the nodes with an ID that no node has changes nothing.
pub proof fn lemma_nodes_with_absent<N>(s: Seq<Node<N>>, id: Seq<char>, f: spec_fn(Node<N>) -> Node<N>)
    requires
        forall|k: int| 0 <= k < s.len() ==> (#[trigger] s[k]).id@ != id,
    ensures
        nodes_with(s, id, f) == s,
{
    assert(nodes_with(s, id, f) =~= s);
}

/// Updating the edges with an ID that no edge has changes nothing.
pub proof fn lemma_edges_with_absent<E>(s: Seq<Edge<E>>, id: Seq<char>, f: spec_fn(Edge<E>) -> Edge<E>)
    requires
        forall|k: int| 0 <= k < s.len() ==> (#[trigger] s[k]).id@ != id,
    ensures
        edges_with(s, id, f) == s,
{
    assert(edges_with(s, id, f) =~= s);
}

/// Updating the one node with a given ID, without changing its ID, keeps a
/// graph well formed and is the same as updating every node with that ID.
pub proof fn lemma_update_node<N, E>(
    nodes: Seq<Node<N>>,
    edges: Seq<Edge<E>>,
    i: int,
    id: Seq<char>,
    f: spec_fn(Node<N>) -> Node<N>,
)
    requires
        graph_wf(nodes, edges),
        0 <= i < nodes.len(),
        nodes[i].id@ == id,
        f(nodes[i]).id == nodes[i].id,
    ensures
        nodes.update(i, f(nodes[i])) == nodes_with(nodes, id, f),
        graph_wf(nodes.update(i, f(nodes[i])), edges),
{
    let ns = nodes.update(i, f(nodes[i]));
    assert forall|k: int| 0 <= k < nodes.len() implies ns[k] == nodes_with(nodes, id, f)[k] by {
        if k != i {
            assert(nodes[k].id@ != nodes[i].id@);
        }
    }
    assert(ns =~= nodes_with(nodes, id, f));
    assert forall|k: int| 0 <= k < edges.len() implies edge_attached(ns, #[trigger] edges[k]) by {
        let e = edges[k];
        assert(edge_attached(nodes, e));
        let a = choose|j: int| 0 <= j < nodes.len() && #[trigger] nodes[j].id@ == e.source@;
        let b = choose|j: int| 0 <= j < nodes.len() && #[trigger] nodes[j].id@ == e.target@;
        assert(ns[a].id@ == e.source@);
        assert(ns[b].id@ == e.target@);
    }
    assert forall|a: int, b: int| 0 <= a < ns.len() && 0 <= b < ns.len() && a != b
        implies #[trigger] ns[a].id@ != #[trigger] ns[b].id@ by {
        assert(ns[a].id == nodes[a].id);
        assert(ns[b].id == nodes[b].id);
    }
}

/// Updating the one edge with a given ID, without changing its ID or
/// endpoints, keeps a graph well formed and is the same as updating every
/// edge with that ID.
pub proof fn lemma_update_edge<N, E>(
    nodes: Seq<Node<N>>,
    edges: Seq<Edge<E>>,
    i: int,
    id: Seq<char>,
    f: spec_fn(Edge<E>) -> Edge<E>,
)
    requires
        graph_wf(nodes, edges),
        0 <= i < edges.len(),
        edges[i].id@ == id,
        f(edges[i]).id == edges[i].id,
        f(edges[i]).source == edges[i].source,
        f(edges[i]).target == edges[i].target,
    ensures
        edges.update(i, f(edges[i])) == edges_with(edges, id, f),
        graph_wf(nodes, edges.update(i, f(edges[i]))),
{
    let es = edges.update(i, f(edges[i]));
    assert forall|k: int| 0 <= k < edges.len() implies es[k] == edges_with(edges, id, f)[k] by {
        if k != i {
            assert(edges[k].id@ != edges[i].id@);
        }
    }
    assert(es =~= edges_with(edges, id, f));
    assert forall|k: int| 0 <= k < es.len() implies edge_attached(nodes, #[trigger] es[k]) by {
        assert(edge_attached(nodes, edges[k]));
    }
    assert forall|a: int, b: int| 0 <= a < es.len() && 0 <= b < es.len() && a != b
        implies #[trigger] es[a].id@ != #[trigger] es[b].id@ by {
        assert(es[a].id == edges[a].id);
        assert(es[b].id == edges[b].id);
    }
}

impl<N, E> Flow<N, E> {
    /// Sets the hidden state of all handles on a node, first materializing
    /// its default handles if it has none. Does nothing if no node has that ID.
    pub fn set_handles_hidden(&mut self, id: &str, hidden: bool)
        requires
            old(self).wf(),
        ensures
            final(self).wf(),
            final(self).same_settings(old(self)),
            final(self).edge_seq() == old(self).edge_seq(),
            final(self).node_seq().len() == old(self).node_seq().len(),
            forall|i: int| 0 <= i < old(self).node_seq().len() ==> if (#[trigger] old(self).node_seq()[i]).id@ == id@ {
                final(self).node_seq()[i] == (Node { handles: final(self).node_seq()[i].handles, ..old(self).node_seq()[i] })
                    && final(self).node_seq()[i].handles@ == handles_hidden_where(old(self).node_seq()[i], |h: Handle| true, hidden)
            } else {
                final(self).node_seq()[i] == old(self).node_seq()[i]
            },
    {
        self.set_hidden_on_handles(id, None, hidden)
    }

    /// Sets the hidden state of the handles with ID `handle_id` on a node,
    /// first materializing its default handles if it has none. Does nothing
    /// if no node has that ID.
    pub fn set_handle_hidden(&mut self, node_id: &str, handle_id: &str, hidden: bool)
        requires
            old(self).wf(),
        ensures
            final(self).wf(),
            final(self).same_settings(old(self)),
            final(self).edge_seq() == old(self).edge_seq(),
            final(self).node_seq().len() == old(self).node_seq().len(),
            forall|i: int| 0 <= i < old(self).node_seq().len() ==> if (#[trigger] old(self).node_seq()[i]).id@ == node_id@ {
                final(self).node_seq()[i] == (Node { handles: final(self).node_seq()[i].handles, ..old(self).node_seq()[i] })
                    && final(self).node_seq()[i].handles@ == handles_hidden_where(old(self).node_seq()[i],
                        |h: Handle| opt_chars(h.id) == Some(handle_id@), hidden)
            } else {
                final(self).node_seq()[i] == old(self).node_seq()[i]
            },
    {
        self.set_hidden_on_handles(node_id, Some(handle_id), hidden)
    }

    /// Sets `hidden` on a node's handles with ID `handle_id`, or on all of them.
    fn set_hidden_on_handles(&mut self, id: &str, handle_id: Option<&str>, hidden: bool)
        requires
            old(self).wf(),
        ensures
            final(self).wf(),
            final(self).same_settings(old(self)),
            final(self).edge_seq() == old(self).edge_seq(),
            final(self).node_seq().len() == old(self).node_seq().len(),
            forall|i: int| 0 <= i < old(self).node_seq().len() ==> if (#[trigger] old(self).node_seq()[i]).id@ == id@ {
                final(self).node_seq()[i] == (Node { handles: final(self).node_seq()[i].handles, ..old(self).node_seq()[i] })
                    && final(self).node_seq()[i].handles@ == handles_hidden_where(old(self).node_seq()[i],
                        |h: Handle| handle_id is None || opt_chars(h.id) == Some(handle_id->0@), hidden)
            } else {
                final(self).node_seq()[i] == old(self).node_seq()[i]
            },
    {
        match find_node(&self.nodes, id) {
            Some(i) => {
                let ghost before = self.nodes@;
                self.nodes[i].ensure_explicit_handles();
                set_handles_hidden_in(&mut self.nodes[i].handles, handle_id, hidden);
                proof {
                    let which = |h: Handle| handle_id is None || opt_chars(h.id) == Some(handle_id->0@);
                    assert(self.nodes@[i as int].handles@ =~= handles_hidden_where(before[i as int], which, hidden));
                    assert forall|k: int| 0 <= k < before.len() && k != i implies (#[trigger] before[k]).id@ != id@ by {
                        assert(before[k].id@ != before[i as int].id@);
                    }
                    lemma_same_ids_wf(before, self.edges@, self.nodes@, self.edges@);
                }
            },
            None => {},
        }
    }

    /// Sets the hidden state of a node.
    ///
    /// Does nothing if no node has that ID.
    #[verifier::spinoff_prover]
    pub fn set_node_hidden(&mut self, id: &str, hidden: bool)
        requires
            old(self).wf(),
        ensures
            final(self).wf(),
            final(self).same_settings(old(self)),
            final(self).edge_seq() == old(self).edge_seq(),
            final(self).node_seq() == nodes_with(old(self).node_seq(), id@, |n: Node<N>| Node { hidden, ..n }),
    {
        match find_node(&self.nodes, id) {
            Some(i) => {
                let ghost f = |n: Node<N>| Node { hidden, ..n };
                proof {
                    lemma_update_node(self.nodes@, self.edges@, i as int, id@, f);
                }
                let ghost before = self.nodes@;
                self.nodes[i].hidden = hidden;
                assert(self.nodes@ == before.update(i as int, f(before[i as int])));
            },
            None => {
                proof {
                    lemma_nodes_with_absent(self.nodes@, id@, |n: Node<N>| Node { hidden, ..n });
                }
            },
        }
    }

    /// Sets whether a node can be selected.
    ///
    /// Does nothing if no node has that ID.
    #[verifier::spinoff_prover]
    pub fn set_node_selectable(&mut self, id: &str, selectable: bool)
        requires
            old(self).wf(),
        ensures
            final(self).wf(),
            final(self).same_settings(old(self)),
            final(self).edge_seq() == old(self).edge_seq(),
            final(self).node_seq() == nodes_with(old(self).node_seq(), id@, |n: Node<N>| Node { selectable, ..n }),
    {
        match find_node(&self.nodes, id) {
            Some(i) => {
                let ghost f = |n: Node<N>| Node { selectable, ..n };
                proof {
                    lemma_update_node(self.nodes@, self.edges@, i as int, id@, f);
                }
                let ghost before = self.nodes@;
                self.nodes[i].selectable = selectable;
                assert(self.nodes@ == before.update(i as int, f(before[i as int])));
            },
            None => {
                proof {
                    lemma_nodes_with_absent(self.nodes@, id@, |n: Node<N>| Node { selectable, ..n });
                }
            },
        }
    }

    /// Sets whether a node can be deleted.
    ///
    /// Does nothing if no node has that ID.
    #[verifier::spinoff_prover]
    pub fn set_node_deletable(&mut self, id: &str, deletable: bool)
        requires
            old(self).wf(),
        ensures
            final(self).wf(),
            final(self).same_settings(old(self)),
            final(self).edge_seq() == old(self).edge_seq(),
            final(self).node_seq() == nodes_with(old(self).node_seq(), id@, |n: Node<N>| Node { deletable, ..n }),
    {
        match find_node(&self.nodes, id) {
            Some(i) => {
                let ghost f = |n: Node<N>| Node { deletable, ..n };
                proof {
                    lemma_update_node(self.nodes@, self.edges@, i as int, id@, f);
                }
                let ghost before = self.nodes@;
                self.nodes[i].deletable = deletable;
                assert(self.nodes@ == before.update(i as int, f(before[i as int])));
            },
            None => {
                proof {
                    lemma_nodes_with_absent(self.nodes@, id@, |n: Node<N>| Node { deletable, ..n });
                }
            },
        }
    }

    /// Sets whether a node can be dragged.
    ///
    /// Does nothing if no node has that ID.
    #[verifier::spinoff_prover]
    pub fn set_node_draggable(&mut self, id: &str, draggable: bool)
        requires
            old(self).wf(),
        ensures
            final(self).wf(),
            final(self).same_settings(old(self)),
            final(self).edge_seq() == old(self).edge_seq(),
            final(self).node_seq() == nodes_with(old(self).node_seq(), id@, |n: Node<N>| Node { draggable, ..n }),
    {
        match find_node(&self.nodes, id) {
            Some(i) => {
                let ghost f = |n: Node<N>| Node { draggable, ..n };
                proof {
                    lemma_update_node(self.nodes@, self.edges@, i as int, id@, f);
                }
                let ghost before = self.nodes@;
                self.nodes[i].draggable = draggable;
                assert(self.nodes@ == before.update(i as int, f(before[i as int])));
            },
            None => {
                proof {
                    lemma_nodes_with_absent(self.nodes@, id@, |n: Node<N>| Node { draggable, ..n });
                }
            },
        }
    }

    /// Sets whether a node can be resized.
    ///
    /// Does nothing if no node has that ID.
    #[verifier::spinoff_prover]
    pub fn set_node_resizable(&mut self, id: &str, resizable: bool)
        requires
            old(self).wf(),
        ensures
            final(self).wf(),
            final(self).same_settings(old(self)),
            final(self).edge_seq() == old(self).edge_seq(),
            final(self).node_seq() == nodes_with(old(self).node_seq(), id@, |n: Node<N>| Node { resizable, ..n }),
    {
        match find_node(&self.nodes, id) {
            Some(i) => {
                let ghost f = |n: Node<N>| Node { resizable, ..n };
                proof {
                    lemma_update_node(self.nodes@, self.edges@, i as int, id@, f);
                }
                let ghost before = self.nodes@;
                self.nodes[i].resizable = resizable;
                assert(self.nodes@ == before.update(i as int, f(before[i as int])));
            },
            None => {
                proof {
                    lemma_nodes_with_absent(self.nodes@, id@, |n: Node<N>| Node { resizable, ..n });
                }
            },
        }
    }

    /// Sets whether a node's handles can participate in connections.
    ///
    /// Does nothing if no node has that ID.
    #[verifier::spinoff_prover]
    pub fn set_node_connectable(&mut self, id: &str, connectable: bool)
        requires
            old(self).wf(),
        ensures
            final(self).wf(),
            final(self).same_settings(old(self)),
            final(self).edge_seq() == old(self).edge_seq(),
            final(self).node_seq() == nodes_with(old(self).node_seq(), id@, |n: Node<N>| Node { connectable, ..n }),
    {
        match find_node(&self.nodes, id) {
            Some(i) => {
                let ghost f = |n: Node<N>| Node { connectable, ..n };
                proof {
                    lemma_update_node(self.nodes@, self.edges@, i as int, id@, f);
                }
                let ghost before = self.nodes@;
                self.nodes[i].connectable = connectable;
                assert(self.nodes@ == before.update(i as int, f(before[i as int])));
            },
            None => {
                proof {
                    lemma_nodes_with_absent(self.nodes@, id@, |n: Node<N>| Node { connectable, ..n });
                }
            },
        }
    }

    /// Sets whether a node blocks content behind it.
    ///
    /// Does nothing if no node has that ID.
    #[verifier::spinoff_prover]
    pub fn set_node_opaque(&mut self, id: &str, opaque: bool)
        requires
            old(self).wf(),
        ensures
            final(self).wf(),
            final(self).same_settings(old(self)),
            final(self).edge_seq() == old(self).edge_seq(),
            final(self).node_seq() == nodes_with(old(self).node_seq(), id@, |n: Node<N>| Node { opaque, ..n }),
    {
        match find_node(&self.nodes, id) {
            Some(i) => {
                let ghost f = |n: Node<N>| Node { opaque, ..n };
                proof {
                    lemma_update_node(self.nodes@, self.edges@, i as int, id@, f);
                }
                let ghost before = self.nodes@;
                self.nodes[i].opaque = opaque;
                assert(self.nodes@ == before.update(i as int, f(before[i as int])));
            },
            None => {
                proof {
                    lemma_nodes_with_absent(self.nodes@, id@, |n: Node<N>| Node { opaque, ..n });
                }
            },
        }
    }

    /// Sets the z-index of a node: higher values are ordered above.
    ///
    /// Does nothing if no node has that ID.
    #[verifier::spinoff_prover]
    pub fn set_node_z_index(&mut self, id: &str, z_index: i32)
        requires
            old(self).wf(),
        ensures
            final(self).wf(),
            final(self).same_settings(old(self)),
            final(self).edge_seq() == old(self).edge_seq(),
            final(self).node_seq() == nodes_with(old(self).node_seq(), id@, |n: Node<N>| Node { z_index, ..n }),
    {
        match find_node(&self.nodes, id) {
            Some(i) => {
                let ghost f = |n: Node<N>| Node { z_index, ..n };
                proof {
                    lemma_update_node(self.nodes@, self.edges@, i as int, id@, f);
                }
                let ghost before = self.nodes@;
                self.nodes[i].z_index = z_index;
                assert(self.nodes@ == before.update(i as int, f(before[i as int])));
            },
            None => {
                proof {
                    lemma_nodes_with_absent(self.nodes@, id@, |n: Node<N>| Node { z_index, ..n });
                }
            },
        }
    }

    /// Sets the hidden state of an edge.
    ///
    /// Does nothing if no edge has that ID.
    #[verifier::spinoff_prover]
    pub fn set_edge_hidden(&mut self, id: &str, hidden: bool)
        requires
            old(self).wf(),
        ensures
            final(self).wf(),
            final(self).same_settings(old(self)),
            final(self).node_seq() == old(self).node_seq(),
            final(self).edge_seq() == edges_with(old(self).edge_seq(), id@, |e: Edge<E>| Edge { hidden, ..e }),
    {
        match find_edge(&self.edges, id) {
            Some(i) => {
                let ghost f = |e: Edge<E>| Edge { hidden, ..e };
                proof {
                    lemma_update_edge(self.nodes@, self.edges@, i as int, id@, f);
                }
                let ghost before = self.edges@;
                self.edges[i].hidden = hidden;
                assert(self.edges@ == before.update(i as int, f(before[i as int])));
            },
            None => {
                proof {
                    lemma_edges_with_absent(self.edges@, id@, |e: Edge<E>| Edge { hidden, ..e });
                }
            },
        }
    }

    /// Sets the label of an edge.
    ///
    /// Does nothing if no edge has that ID.
    #[verifier::spinoff_prover]
    pub fn set_edge_label(&mut self, id: &str, label: Option<String>)
        requires
            old(self).wf(),
        ensures
            final(self).wf(),
            final(self).same_settings(old(self)),
            final(self).node_seq() == old(self).node_seq(),
            final(self).edge_seq() == edges_with(old(self).edge_seq(), id@, |e: Edge<E>| Edge { label, ..e }),
    {
        match find_edge(&self.edges, id) {
            Some(i) => {
                let ghost f = |e: Edge<E>| Edge { label, ..e };
                proof {
                    lemma_update_edge(self.nodes@, self.edges@, i as int, id@, f);
                }
                let ghost before = self.edges@;
                self.edges[i].label = label;
                assert(self.edges@ == before.update(i as int, f(before[i as int])));
            },
            None => {
                proof {
                    lemma_edges_with_absent(self.edges@, id@, |e: Edge<E>| Edge { label, ..e });
                }
            },
        }
    }

    /// Sets whether an edge can be selected.
    ///
    /// Does nothing if no edge has that ID.
    #[verifier::spinoff_prover]
    pub fn set_edge_selectable(&mut self, id: &str, selectable: bool)
        requires
            old(self).wf(),
        ensures
            final(self).wf(),
            final(self).same_settings(old(self)),
            final(self).node_seq() == old(self).node_seq(),
            final(self).edge_seq() == edges_with(old(self).edge_seq(), id@, |e: Edge<E>| Edge { selectable, ..e }),
    {
        match find_edge(&self.edges, id) {
            Some(i) => {
                let ghost f = |e: Edge<E>| Edge { selectable, ..e };
                proof {
                    lemma_update_edge(self.nodes@, self.edges@, i as int, id@, f);
                }
                let ghost before = self.edges@;
                self.edges[i].selectable = selectable;
                assert(self.edges@ == before.update(i as int, f(before[i as int])));
            },
            None => {
                proof {
                    lemma_edges_with_absent(self.edges@, id@, |e: Edge<E>| Edge { selectable, ..e });
                }
            },
        }
    }

    /// Sets whether an edge can be deleted.
    ///
    /// Does nothing if no edge has that ID.
    #[verifier::spinoff_prover]
    pub fn set_edge_deletable(&mut self, id: &str, deletable: bool)
        requires
            old(self).wf(),
        ensures
            final(self).wf(),
            final(self).same_settings(old(self)),
            final(self).node_seq() == old(self).node_seq(),
            final(self).edge_seq() == edges_with(old(self).edge_seq(), id@, |e: Edge<E>| Edge { deletable, ..e }),
    {
        match find_edge(&self.edges, id) {
            Some(i) => {
                let ghost f = |e: Edge<E>| Edge { deletable, ..e };
                proof {
                    lemma_update_edge(self.nodes@, self.edges@, i as int, id@, f);
                }
                let ghost before = self.edges@;
                self.edges[i].deletable = deletable;
                assert(self.edges@ == before.update(i as int, f(before[i as int])));
            },
            None => {
                proof {
                    lemma_edges_with_absent(self.edges@, id@, |e: Edge<E>| Edge { deletable, ..e });
                }
            },
        }
    }

    /// Sets whether an edge is animated.
    ///
    /// Does nothing if no edge has that ID.
    #[verifier::spinoff_prover]
    pub fn set_edge_animated(&mut self, id: &str, animated: bool)
        requires
            old(self).wf(),
        ensures
            final(self).wf(),
            final(self).same_settings(old(self)),
            final(self).node_seq() == old(self).node_seq(),
            final(self).edge_seq() == edges_with(old(self).edge_seq(), id@, |e: Edge<E>| Edge { animated, ..e }),
    {
        match find_edge(&self.edges, id) {
            Some(i) => {
                let ghost f = |e: Edge<E>| Edge { animated, ..e };
                proof {
                    lemma_update_edge(self.nodes@, self.edges@, i as int, id@, f);
                }
                let ghost before = self.edges@;
                self.edges[i].animated = animated;
                assert(self.edges@ == before.update(i as int, f(before[i as int])));
            },
            None => {
                proof {
                    lemma_edges_with_absent(self.edges@, id@, |e: Edge<E>| Edge { animated, ..e });
                }
            },
        }
    }

    /// Sets whether an edge can be reconnected.
    ///
    /// Does nothing if no edge has that ID.
    #[verifier::spinoff_prover]
    pub fn set_edge_reconnectable(&mut self, id: &str, reconnectable: Reconnectable)
        requires
            old(self).wf(),
        ensures
            final(self).wf(),
            final(self).same_settings(old(self)),
            final(self).node_seq() == old(self).node_seq(),
            final(self).edge_seq() == edges_with(old(self).edge_seq(), id@, |e: Edge<E>| Edge { reconnectable, ..e }),
    {
        match find_edge(&self.edges, id) {
            Some(i) => {
                let ghost f = |e: Edge<E>| Edge { reconnectable, ..e };
                proof {
                    lemma_update_edge(self.nodes@, self.edges@, i as int, id@, f);
                }
                let ghost before = self.edges@;
                self.edges[i].reconnectable = reconnectable;
                assert(self.edges@ == before.update(i as int, f(before[i as int])));
            },
            None => {
                proof {
                    lemma_edges_with_absent(self.edges@, id@, |e: Edge<E>| Edge { reconnectable, ..e });
                }
            },
        }
    }

}

} // verus!
