//! Mutable access to the custom content of nodes and edges.
//!
//! Only the content can be reached this way: identity, handles and flags
//! keep their setters, so that what the graph checks cannot be changed here.

use vstd::prelude::*;
use crate::state::lookup::{find_edge, find_node};
use crate::state::model::{graph_wf, has_edge, has_node, lemma_same_ids_wf};
use crate::state::update::{edges_with, lemma_update_edge, lemma_update_node, nodes_with};
use crate::state::Flow;
use crate::types::{Edge, Node};

verus! {

/// The ID and a mutable reference to the content of the one node of `first`.
fn id_and_content<'a, N>(first: &'a mut [Node<N>]) -> (r: (&'a str, &'a mut N))
    requires
        old(first)@.len() == 1,
    ensures
        r.0@ == old(first)@[0].id@,
        *r.1 == old(first)@[0].content,
        final(first)@ == seq![Node { content: *final(r.1), ..old(first)@[0] }],
{
    let node = &mut first[0];
    let Node { id, content, .. } = node;
    let id: &'a String = id;
    (id.as_str(), content)
}

/// Each node's ID with a mutable reference to its content, in order.
fn ids_and_contents<'a, N>(nodes: &'a mut [Node<N>]) -> (r: Vec<(&'a str, &'a mut N)>)
    ensures
        r@.len() == old(nodes)@.len(),
        forall|k: int| 0 <= k < r@.len() ==> (#[trigger] r@[k]).0@ == old(nodes)@[k].id@
            && *r@[k].1 == old(nodes)@[k].content,
        final(nodes)@.len() == old(nodes)@.len(),
        forall|k: int| 0 <= k < r@.len() ==> #[trigger] final(nodes)@[k] == (Node { content: *final(r@[k].1), ..old(nodes)@[k] }),
    decreases old(nodes)@.len(),
{
    if nodes.len() == 0 {
        return Vec::new();
    }
    let (first, rest) = nodes.split_at_mut(1);
    let mut out = ids_and_contents(rest);
    let head = id_and_content(first);
    out.insert(0, head);
    out
}

/// The ID and a mutable reference to the content of the one edge of `first`.
fn edge_id_and_content<'a, E>(first: &'a mut [Edge<E>]) -> (r: (&'a str, &'a mut E))
    requires
        old(first)@.len() == 1,
    ensures
        r.0@ == old(first)@[0].id@,
        *r.1 == old(first)@[0].content,
        final(first)@ == seq![Edge { content: *final(r.1), ..old(first)@[0] }],
{
    let edge = &mut first[0];
    let Edge { id, content, .. } = edge;
    let id: &'a String = id;
    (id.as_str(), content)
}

/// Each edge's ID with a mutable reference to its content, in order.
fn edge_ids_and_contents<'a, E>(edges: &'a mut [Edge<E>]) -> (r: Vec<(&'a str, &'a mut E)>)
    ensures
        r@.len() == old(edges)@.len(),
        forall|k: int| 0 <= k < r@.len() ==> (#[trigger] r@[k]).0@ == old(edges)@[k].id@
            && *r@[k].1 == old(edges)@[k].content,
        final(edges)@.len() == old(edges)@.len(),
        forall|k: int| 0 <= k < r@.len() ==> #[trigger] final(edges)@[k] == (Edge { content: *final(r@[k].1), ..old(edges)@[k] }),
    decreases old(edges)@.len(),
{
    if edges.len() == 0 {
        return Vec::new();
    }
    let (first, rest) = edges.split_at_mut(1);
    let mut out = edge_ids_and_contents(rest);
    let head = edge_id_and_content(first);
    out.insert(0, head);
    out
}

impl<N, E> Flow<N, E> {
    /// A mutable reference to the content of the node with ID `id`, or
    /// `None` if no node has that ID.
    pub fn node_content_mut(&mut self, id: &str) -> (r: Option<&mut N>)
        requires
            old(self).wf(),
        ensures
            r is None <==> !has_node(old(self).node_seq(), id@),
            r is None ==> *final(self) == *old(self),
            r matches Some(c) ==> {
                &&& exists|i: int| 0 <= i < old(self).node_seq().len() && old(self).node_seq()[i].id@ == id@
                    && *c == old(self).node_seq()[i].content
                &&& final(self).node_seq() == nodes_with(old(self).node_seq(), id@, |n: Node<N>| Node { content: *final(c), ..n })
            },
            final(self).wf(),
            final(self).edge_seq() == old(self).edge_seq(),
            final(self).same_settings(old(self)),
    {
        match find_node(&self.nodes, id) {
            Some(i) => {
                let ghost ns = self.nodes@;
                let ghost es = self.edges@;
                let node = &mut self.nodes[i];
                let c = &mut node.content;
                proof {
                    lemma_update_node(ns, es, i as int, id@, |n: Node<N>| Node { content: *final(c), ..n });
                }
                Some(c)
            },
            None => None,
        }
    }
    /// A mutable reference to the content of the edge with ID `id`, or
    /// `None` if no edge has that ID.
    pub fn edge_content_mut(&mut self, id: &str) -> (r: Option<&mut E>)
        requires
            old(self).wf(),
        ensures
            r is None <==> !has_edge(old(self).edge_seq(), id@),
            r is None ==> *final(self) == *old(self),
            r matches Some(c) ==> {
                &&& exists|i: int| 0 <= i < old(self).edge_seq().len() && old(self).edge_seq()[i].id@ == id@
                    && *c == old(self).edge_seq()[i].content
                &&& final(self).edge_seq() == edges_with(old(self).edge_seq(), id@, |e: Edge<E>| Edge { content: *final(c), ..e })
            },
            final(self).wf(),
            final(self).node_seq() == old(self).node_seq(),
            final(self).same_settings(old(self)),
    {
        match find_edge(&self.edges, id) {
            Some(i) => {
                let ghost ns = self.nodes@;
                let ghost es = self.edges@;
                let edge = &mut self.edges[i];
                let c = &mut edge.content;
                proof {
                    lemma_update_edge(ns, es, i as int, id@, |e: Edge<E>| Edge { content: *final(c), ..e });
                }
                Some(c)
            },
            None => None,
        }
    }
    /// Every node's ID paired with a mutable reference to its content, in
    /// node order. Only the contents can change through them.
    pub fn nodes_content_mut(&mut self) -> (r: Vec<(&str, &mut N)>)
        requires
            old(self).wf(),
        ensures
            r@.len() == old(self).node_seq().len(),
            forall|k: int| 0 <= k < r@.len() ==> (#[trigger] r@[k]).0@ == old(self).node_seq()[k].id@
                && *r@[k].1 == old(self).node_seq()[k].content,
            final(self).node_seq() == Seq::new(old(self).node_seq().len(), |k: int| Node { content: *final(r@[k].1), ..old(self).node_seq()[k] }),
            final(self).wf(),
            final(self).edge_seq() == old(self).edge_seq(),
            final(self).same_settings(old(self)),
    {
        let ghost ns = self.nodes@;
        let ghost es = self.edges@;
        let r = ids_and_contents(self.nodes.as_mut_slice());
        proof {
            assert forall|n2: Seq<Node<N>>| n2.len() == ns.len()
                && (forall|i: int| 0 <= i < ns.len() ==> (#[trigger] n2[i]).id == ns[i].id)
                implies #[trigger] graph_wf(n2, es) by {
                lemma_same_ids_wf(ns, es, n2, es);
            }
        }
        r
    }

    /// Every edge's ID paired with a mutable reference to its content, in
    /// edge order. Only the contents can change through them.
    pub fn edges_content_mut(&mut self) -> (r: Vec<(&str, &mut E)>)
        requires
            old(self).wf(),
        ensures
            r@.len() == old(self).edge_seq().len(),
            forall|k: int| 0 <= k < r@.len() ==> (#[trigger] r@[k]).0@ == old(self).edge_seq()[k].id@
                && *r@[k].1 == old(self).edge_seq()[k].content,
            final(self).edge_seq() == Seq::new(old(self).edge_seq().len(), |k: int| Edge { content: *final(r@[k].1), ..old(self).edge_seq()[k] }),
            final(self).wf(),
            final(self).node_seq() == old(self).node_seq(),
            final(self).same_settings(old(self)),
    {
        let ghost ns = self.nodes@;
        let ghost es = self.edges@;
        let r = edge_ids_and_contents(self.edges.as_mut_slice());
        proof {
            assert forall|e2: Seq<Edge<E>>| e2.len() == es.len()
                && (forall|i: int| 0 <= i < es.len() ==> (#[trigger] e2[i]).id == es[i].id
                    && e2[i].source == es[i].source && e2[i].target == es[i].target)
                implies #[trigger] graph_wf(ns, e2) by {
                lemma_same_ids_wf(ns, es, ns, e2);
            }
        }
        r
    }
}

} // verus!
