//! Graph operations: querying and mutating nodes and edges.

use vstd::prelude::*;
use crate::error::Error;
use crate::state::checks::{check_edge, check_node, check_node_ids, check_nodes};
use crate::state::lookup::{find_edge, find_node};
use crate::state::model::{
    edge_attached, edge_ids_unique, edge_problem, edges_attached, graph_wf, has_edge, has_node,
    edge_dup_at, first_in, lemma_first_in, lemma_first_in_stable, member_of, node_dup_pred,
    node_ids_unique, node_problem, nodes_problem, reports, GraphProblem,
};
use crate::state::retain::{lemma_masked, masked, masked_indices, negated, retain_masked, split_masked};
use crate::state::guarantees::{
    deletion_respects_flags, lemma_selected_deletion_respects_deletable,
    lemma_selected_edge_deletion_respects_deletable,
};
use crate::state::Flow;
use crate::strs::{copy_string, opt_chars, opt_is, opt_ref, opt_str_chars, string_eq, string_is};
use crate::types::{Connection, Edge, Node, Reconnectable};

verus! {

/// The problem that adding `node` to `nodes` runs into, if any: a duplicate
/// ID first, then a missing parent, then its handles.
pub open spec fn add_node_problem<N>(nodes: Seq<Node<N>>, node: Node<N>) -> Option<GraphProblem> {
    if has_node(nodes, node.id@) {
        Some(GraphProblem::DuplicateNode(node.id@))
    } else {
        node_problem(member_of(nodes), node)
    }
}

/// The problem that adding `edge` runs into, if any: a duplicate ID first,
/// then a self-loop, a missing source, a missing target.
pub open spec fn add_edge_problem<N, E>(nodes: Seq<Node<N>>, edges: Seq<Edge<E>>, edge: Edge<E>) -> Option<GraphProblem> {
    if has_edge(edges, edge.id@) {
        Some(GraphProblem::DuplicateEdge(edge.id@))
    } else {
        edge_problem::<N, E>(member_of(nodes), edge)
    }
}

/// `source` and `target` are two distinct nodes of `nodes`.
pub open spec fn endpoints_ok<N>(nodes: Seq<Node<N>>, source: Seq<char>, target: Seq<char>) -> bool {
    &&& source != target
    &&& has_node(nodes, source)
    &&& has_node(nodes, target)
}

/// The edge joins `source` to `target` through exactly the given handles.
pub open spec fn joins<E>(
    e: Edge<E>,
    source: Seq<char>,
    source_handle: Option<Seq<char>>,
    target: Seq<char>,
    target_handle: Option<Seq<char>>,
) -> bool {
    &&& e.source@ == source
    &&& opt_chars(e.source_handle) == source_handle
    &&& e.target@ == target
    &&& opt_chars(e.target_handle) == target_handle
}

/// Some edge joins `source` to `target` through exactly the given handles.
pub open spec fn connected<E>(
    edges: Seq<Edge<E>>,
    source: Seq<char>,
    source_handle: Option<Seq<char>>,
    target: Seq<char>,
    target_handle: Option<Seq<char>>,
) -> bool {
    exists|i: int| 0 <= i < edges.len() && joins(#[trigger] edges[i], source, source_handle, target, target_handle)
}

/// `e` is the edge the connection `c` becomes: its deterministic ID, its
/// endpoints and handles, the given content, and default flags.
pub open spec fn is_edge_from_connection<E>(e: Edge<E>, c: Connection, content: E) -> bool {
    &&& e.id@ == c.spec_edge_id()
    &&& e.source == c.source
    &&& e.target == c.target
    &&& e.source_handle == c.source_handle
    &&& e.target_handle == c.target_handle
    &&& e.content == content
    &&& !e.hidden
    &&& e.deletable
    &&& e.selectable
    &&& !e.selected
    &&& !e.animated
    &&& e.label is None
    &&& e.reconnectable == Reconnectable::Inherit
}

/// Adding a node that has no problem keeps a graph well formed.
pub proof fn lemma_add_node_wf<N, E>(nodes: Seq<Node<N>>, edges: Seq<Edge<E>>, node: Node<N>)
    requires
        graph_wf(nodes, edges),
        !has_node(nodes, node.id@),
    ensures
        graph_wf(nodes.push(node), edges),
{
    let ns = nodes.push(node);
    assert forall|i: int| 0 <= i < edges.len() implies crate::state::model::edge_attached(ns, #[trigger] edges[i]) by {
        let e = edges[i];
        assert(crate::state::model::edge_attached(nodes, e));
        let a = choose|k: int| 0 <= k < nodes.len() && #[trigger] nodes[k].id@ == e.source@;
        let b = choose|k: int| 0 <= k < nodes.len() && #[trigger] nodes[k].id@ == e.target@;
        assert(ns[a].id@ == e.source@);
        assert(ns[b].id@ == e.target@);
    }
    assert forall|i: int, j: int| 0 <= i < ns.len() && 0 <= j < ns.len() && i != j
        implies #[trigger] ns[i].id@ != #[trigger] ns[j].id@ by {
        if i == nodes.len() {
            assert(nodes[j].id@ != node.id@);
        } else if j == nodes.len() {
            assert(nodes[i].id@ != node.id@);
        }
    }
}

/// Adding an edge that has no problem keeps a graph well formed.
pub proof fn lemma_add_edge_wf<N, E>(nodes: Seq<Node<N>>, edges: Seq<Edge<E>>, edge: Edge<E>)
    requires
        graph_wf(nodes, edges),
        add_edge_problem(nodes, edges, edge) is None,
    ensures
        graph_wf(nodes, edges.push(edge)),
{
    let es = edges.push(edge);
    assert forall|i: int, j: int| 0 <= i < es.len() && 0 <= j < es.len() && i != j
        implies #[trigger] es[i].id@ != #[trigger] es[j].id@ by {
        if i == edges.len() {
            assert(edges[j].id@ != edge.id@);
        } else if j == edges.len() {
            assert(edges[i].id@ != edge.id@);
        }
    }
    assert forall|i: int| 0 <= i < es.len() implies crate::state::model::edge_attached(nodes, #[trigger] es[i]) by {
        if i < edges.len() {
            assert(crate::state::model::edge_attached(nodes, edges[i]));
        }
    }
}

/// The edge has `id` as its source or its target.
pub open spec fn touches<E>(e: Edge<E>, id: Seq<char>) -> bool {
    e.source@ == id || e.target@ == id
}

/// Which edges survive the removal of node `id`: those not touching it.
pub open spec fn untouched_mask<E>(edges: Seq<Edge<E>>, id: Seq<char>) -> Seq<bool> {
    Seq::new(edges.len(), |i: int| !touches(edges[i], id))
}

/// Keeping, in order, edges that each join two distinct nodes of `nodes`
/// leaves well-formed edges.
pub proof fn lemma_masked_edges_wf<N, E>(nodes: Seq<Node<N>>, edges: Seq<Edge<E>>, mask: Seq<bool>)
    requires
        mask.len() == edges.len(),
        edge_ids_unique(edges),
        forall|i: int| 0 <= i < edges.len() && #[trigger] mask[i] ==> edge_attached(nodes, edges[i]),
    ensures
        edge_ids_unique(masked(edges, mask)),
        edges_attached(nodes, masked(edges, mask)),
{
    lemma_masked(edges, mask);
    let r = masked(edges, mask);
    let ix = masked_indices(edges.len(), mask);
    assert forall|i: int, j: int| 0 <= i < r.len() && 0 <= j < r.len() && i != j
        implies #[trigger] r[i].id@ != #[trigger] r[j].id@ by {
        assert(0 <= ix[i] < edges.len());
        assert(0 <= ix[j] < edges.len());
        if i < j {
            assert(ix[i] < ix[j]);
        } else {
            assert(ix[j] < ix[i]);
        }
        assert(r[i] == edges[ix[i]]);
        assert(r[j] == edges[ix[j]]);
    }
    assert forall|k: int| 0 <= k < r.len() implies edge_attached(nodes, #[trigger] r[k]) by {
        assert(0 <= ix[k] < edges.len());
        assert(mask[ix[k]]);
        assert(r[k] == edges[ix[k]]);
    }
}

/// Removing node `idx` and every edge touching it keeps a graph well formed.
pub proof fn lemma_remove_node_wf<N, E>(nodes: Seq<Node<N>>, edges: Seq<Edge<E>>, idx: int)
    requires
        graph_wf(nodes, edges),
        0 <= idx < nodes.len(),
    ensures
        graph_wf(nodes.remove(idx), masked(edges, untouched_mask(edges, nodes[idx].id@))),
{
    let id = nodes[idx].id@;
    let ns = nodes.remove(idx);
    let mask = untouched_mask(edges, id);
    assert forall|i: int| 0 <= i < edges.len() && #[trigger] mask[i] implies edge_attached(ns, edges[i]) by {
        let e = edges[i];
        assert(edge_attached(nodes, e));
        let a = choose|k: int| 0 <= k < nodes.len() && #[trigger] nodes[k].id@ == e.source@;
        let b = choose|k: int| 0 <= k < nodes.len() && #[trigger] nodes[k].id@ == e.target@;
        assert(a != idx);
        assert(b != idx);
        if a < idx { assert(ns[a].id@ == e.source@); } else { assert(ns[a - 1].id@ == e.source@); }
        if b < idx { assert(ns[b].id@ == e.target@); } else { assert(ns[b - 1].id@ == e.target@); }
    }
    lemma_masked_edges_wf(ns, edges, mask);
    assert forall|i: int, j: int| 0 <= i < ns.len() && 0 <= j < ns.len() && i != j
        implies #[trigger] ns[i].id@ != #[trigger] ns[j].id@ by {
        let i0 = if i < idx { i } else { i + 1 };
        let j0 = if j < idx { j } else { j + 1 };
        assert(ns[i] == nodes[i0]);
        assert(ns[j] == nodes[j0]);
    }
}

impl<N, E> Flow<N, E> {
    /// Returns all nodes, in insertion order.
    pub fn nodes(&self) -> (r: &[Node<N>])
        ensures
            r@ == self.node_seq(),
    {
        self.nodes.as_slice()
    }

    /// Returns all edges, in insertion order.
    pub fn edges(&self) -> (r: &[Edge<E>])
        ensures
            r@ == self.edge_seq(),
    {
        self.edges.as_slice()
    }

    /// Returns a node by ID.
    pub fn node(&self, id: &str) -> (r: Option<&Node<N>>)
        requires
            self.wf(),
        ensures
            r matches Some(n) ==> exists|i: int| 0 <= i < self.node_seq().len() && self.node_seq()[i] == *n
                && n.id@ == id@,
            r is None <==> !has_node(self.node_seq(), id@),
    {
        match find_node(&self.nodes, id) {
            Some(i) => Some(&self.nodes[i]),
            None => None,
        }
    }

    /// Returns an edge by ID.
    pub fn edge(&self, id: &str) -> (r: Option<&Edge<E>>)
        requires
            self.wf(),
        ensures
            r matches Some(e) ==> exists|i: int| 0 <= i < self.edge_seq().len() && self.edge_seq()[i] == *e
                && e.id@ == id@,
            r is None <==> !has_edge(self.edge_seq(), id@),
    {
        match find_edge(&self.edges, id) {
            Some(i) => Some(&self.edges[i]),
            None => None,
        }
    }

    /// Adds a node to the graph.
    ///
    /// Fails if a node with the same ID exists, if its parent doesn't exist,
    /// or if its handles are ambiguous or carry duplicate IDs; the graph is
    /// then left as it was.
    pub fn add_node(&mut self, node: Node<N>) -> (r: Result<(), Error>)
        requires
            old(self).wf(),
        ensures
            final(self).wf(),
            match add_node_problem(old(self).node_seq(), node) {
                None => r is Ok && final(self).node_seq() == old(self).node_seq().push(node)
                    && final(self).edge_seq() == old(self).edge_seq()
                    && final(self).same_settings(old(self)),
                Some(p) => r matches Err(e) && reports(e, p) && *final(self) == *old(self),
            },
    {
        match find_node(&self.nodes, node.id.as_str()) {
            Some(i) => {
                assert(self.nodes@[i as int].id@ == node.id@);
                return Err(Error::DuplicateNodeId { node_id: copy_string(&node.id) });
            },
            None => {},
        }
        check_node(&self.nodes, &node)?;
        proof {
            lemma_add_node_wf(self.nodes@, self.edges@, node);
        }
        self.nodes.push(node);
        Ok(())
    }

    /// Adds an edge to the graph.
    ///
    /// Fails if an edge with the same ID exists, if the edge joins a node to
    /// itself, or if its source or target doesn't exist; the graph is then left
    /// as it was.
    pub fn add_edge(&mut self, edge: Edge<E>) -> (r: Result<(), Error>)
        requires
            old(self).wf(),
        ensures
            final(self).wf(),
            match add_edge_problem(old(self).node_seq(), old(self).edge_seq(), edge) {
                None => r is Ok && final(self).edge_seq() == old(self).edge_seq().push(edge)
                    && final(self).node_seq() == old(self).node_seq()
                    && final(self).same_settings(old(self)),
                Some(p) => r matches Err(e) && reports(e, p) && *final(self) == *old(self),
            },
    {
        match find_edge(&self.edges, edge.id.as_str()) {
            Some(i) => {
                assert(self.edges@[i as int].id@ == edge.id@);
                return Err(Error::DuplicateEdgeId { edge_id: copy_string(&edge.id) });
            },
            None => {},
        }
        check_edge(&self.nodes, &edge)?;
        proof {
            lemma_add_edge_wf(self.nodes@, self.edges@, edge);
        }
        self.edges.push(edge);
        Ok(())
    }

    /// An edge joins the connection's endpoints and handles already, or an
    /// edge has the ID the connection would get.
    pub open spec fn connection_taken(edges: Seq<Edge<E>>, c: Connection) -> bool {
        connected(edges, c.source@, opt_chars(c.source_handle), c.target@, opt_chars(c.target_handle))
            || has_edge(edges, c.spec_edge_id())
    }

    /// Checks if an edge exists with the given source, target, and handles.
    pub fn connection_exists(
        &self,
        source: &str,
        source_handle: Option<&str>,
        target: &str,
        target_handle: Option<&str>,
    ) -> (r: bool)
        ensures
            r == connected(self.edge_seq(), source@, opt_str_chars(source_handle), target@, opt_str_chars(target_handle)),
    {
        let mut i: usize = 0;
        while i < self.edges.len()
            invariant
                i <= self.edges@.len(),
                forall|k: int| 0 <= k < i ==> !joins(#[trigger] self.edges@[k], source@,
                    opt_str_chars(source_handle), target@, opt_str_chars(target_handle)),
            decreases self.edges@.len() - i,
        {
            let e = &self.edges[i];
            if string_is(&e.source, source) && opt_is(&e.source_handle, source_handle)
                && string_is(&e.target, target) && opt_is(&e.target_handle, target_handle) {
                assert(joins(self.edges@[i as int], source@, opt_str_chars(source_handle), target@,
                    opt_str_chars(target_handle)));
                return true;
            }
            i = i + 1;
        }
        false
    }

    /// Adds an edge from a completed connection, with an ID derived from its
    /// endpoints.
    ///
    /// Returns `None`, adding nothing, if an edge with the same endpoints and
    /// handles, or an edge with that ID, already exists. Otherwise the edge
    /// is added if it joins two distinct existing nodes, and the ID is
    /// returned either way.
    pub fn add_edge_from_connection(&mut self, connection: Connection, content: E) -> (r: Option<String>)
        requires
            old(self).wf(),
        ensures
            final(self).wf(),
            final(self).node_seq() == old(self).node_seq(),
            final(self).same_settings(old(self)),
            Self::connection_taken(old(self).edge_seq(), connection) ==> r is None
                && final(self).edge_seq() == old(self).edge_seq(),
            !Self::connection_taken(old(self).edge_seq(), connection) ==> (r matches Some(id)
                && id@ == connection.spec_edge_id()
                && if endpoints_ok(old(self).node_seq(), connection.source@, connection.target@) {
                    final(self).edge_seq().len() == old(self).edge_seq().len() + 1
                    && final(self).edge_seq().drop_last() == old(self).edge_seq()
                    && is_edge_from_connection(final(self).edge_seq().last(), connection, content)
                } else {
                    final(self).edge_seq() == old(self).edge_seq()
                }),
    {
        if self.connection_exists(connection.source.as_str(), opt_ref(&connection.source_handle),
            connection.target.as_str(), opt_ref(&connection.target_handle)) {
            return None;
        }
        let id = connection.edge_id();
        match find_edge(&self.edges, id.as_str()) {
            Some(i) => {
                assert(self.edges@[i as int].id@ == connection.spec_edge_id());
                return None;
            },
            None => {},
        }
        let ghost c = connection;
        let ret = copy_string(&id);
        let edge = Edge {
            id,
            source: connection.source,
            target: connection.target,
            source_handle: connection.source_handle,
            target_handle: connection.target_handle,
            content,
            hidden: false,
            deletable: true,
            selectable: true,
            selected: false,
            animated: false,
            label: None,
            reconnectable: Reconnectable::Inherit,
        };
        let _ = self.add_edge(edge);
        Some(ret)
    }
}

/// The first problem of a replacement node set, in the order it is checked:
/// a duplicate ID, then each node in turn (a missing parent, its handles).
pub open spec fn set_nodes_problem<N>(nodes: Seq<Node<N>>) -> Option<GraphProblem> {
    match first_in(node_dup_pred(nodes), nodes.len() as int) {
        Some(i) => Some(GraphProblem::DuplicateNode(nodes[i].id@)),
        None => nodes_problem(member_of(nodes), nodes),
    }
}

/// Edge `i` of a replacement edge set repeats an earlier ID or has a problem
/// against the node set.
pub open spec fn set_edges_pred<N, E>(nodes: Seq<Node<N>>, edges: Seq<Edge<E>>) -> spec_fn(int) -> bool {
    |i: int| edge_dup_at(edges, i) || edge_problem::<N, E>(member_of(nodes), edges[i]) is Some
}

/// The first problem of a replacement edge set, checked edge by edge: a
/// repeated ID, then a self-loop, a missing source, a missing target.
pub open spec fn set_edges_problem<N, E>(nodes: Seq<Node<N>>, edges: Seq<Edge<E>>) -> Option<GraphProblem> {
    match first_in(set_edges_pred(nodes, edges), edges.len() as int) {
        Some(i) => if edge_dup_at(edges, i) {
            Some(GraphProblem::DuplicateEdge(edges[i].id@))
        } else {
            edge_problem::<N, E>(member_of(nodes), edges[i])
        },
        None => None,
    }
}

/// `e` is `old` moved onto the endpoints of `c`: the connection's ID,
/// endpoints and handles, with every other field of `old`.
pub open spec fn is_reconnected<E>(e: Edge<E>, old: Edge<E>, c: Connection) -> bool {
    &&& e.id@ == c.spec_edge_id()
    &&& e.source == c.source
    &&& e.target == c.target
    &&& e.source_handle == c.source_handle
    &&& e.target_handle == c.target_handle
    &&& e.content == old.content
    &&& e.hidden == old.hidden
    &&& e.deletable == old.deletable
    &&& e.selectable == old.selectable
    &&& e.selected == old.selected
    &&& e.animated == old.animated
    &&& e.label == old.label
    &&& e.reconnectable == old.reconnectable
}

/// Which edges still have both endpoints among `nodes`.
pub open spec fn attached_mask<N, E>(nodes: Seq<Node<N>>, edges: Seq<Edge<E>>) -> Seq<bool> {
    Seq::new(edges.len(), |i: int| has_node(nodes, edges[i].source@) && has_node(nodes, edges[i].target@))
}

/// Which nodes survive removing the selected deletable ones.
pub open spec fn kept_unless_selected_deletable<N>(nodes: Seq<Node<N>>) -> Seq<bool> {
    Seq::new(nodes.len(), |i: int| !(nodes[i].selected && nodes[i].deletable))
}

/// Which edges survive removing the selected deletable ones.
pub open spec fn edges_kept_unless_selected_deletable<E>(edges: Seq<Edge<E>>) -> Seq<bool> {
    Seq::new(edges.len(), |i: int| !(edges[i].selected && edges[i].deletable))
}

/// Computes which edges still have both endpoints among `nodes`.
pub fn attached_edge_mask<N, E>(nodes: &Vec<Node<N>>, edges: &Vec<Edge<E>>) -> (r: Vec<bool>)
    ensures
        r@ == attached_mask(nodes@, edges@),
{
    let mut keep: Vec<bool> = Vec::new();
    let mut i: usize = 0;
    while i < edges.len()
        invariant
            i <= edges@.len(),
            keep@.len() == i,
            forall|k: int| 0 <= k < i ==> keep@[k] == attached_mask(nodes@, edges@)[k],
        decreases edges@.len() - i,
    {
        let a = match find_node(nodes, edges[i].source.as_str()) {
            Some(j) => {
                assert(nodes@[j as int].id@ == edges@[i as int].source@);
                true
            },
            None => false,
        };
        let b = match find_node(nodes, edges[i].target.as_str()) {
            Some(j) => {
                assert(nodes@[j as int].id@ == edges@[i as int].target@);
                true
            },
            None => false,
        };
        keep.push(a && b);
        i = i + 1;
    }
    assert(keep@ =~= attached_mask(nodes@, edges@));
    keep
}

/// Keeping, in order, some of a set of nodes with unique IDs keeps the IDs unique.
pub proof fn lemma_masked_nodes_unique<N>(nodes: Seq<Node<N>>, mask: Seq<bool>)
    requires
        mask.len() == nodes.len(),
        node_ids_unique(nodes),
    ensures
        node_ids_unique(masked(nodes, mask)),
{
    lemma_masked(nodes, mask);
    let r = masked(nodes, mask);
    let ix = masked_indices(nodes.len(), mask);
    assert forall|i: int, j: int| 0 <= i < r.len() && 0 <= j < r.len() && i != j
        implies #[trigger] r[i].id@ != #[trigger] r[j].id@ by {
        assert(0 <= ix[i] < nodes.len());
        assert(0 <= ix[j] < nodes.len());
        if i < j {
            assert(ix[i] < ix[j]);
        } else {
            assert(ix[j] < ix[i]);
        }
        assert(r[i] == nodes[ix[i]]);
        assert(r[j] == nodes[ix[j]]);
    }
}

/// Keeping the edges whose endpoints are both among a new set of nodes
/// with unique IDs gives a well-formed graph.
pub proof fn lemma_reattach_wf<N, E>(old_nodes: Seq<Node<N>>, nodes: Seq<Node<N>>, edges: Seq<Edge<E>>)
    requires
        graph_wf(old_nodes, edges),
        node_ids_unique(nodes),
    ensures
        graph_wf(nodes, masked(edges, attached_mask(nodes, edges))),
{
    let mask = attached_mask(nodes, edges);
    assert forall|i: int| 0 <= i < edges.len() && #[trigger] mask[i] implies edge_attached(nodes, edges[i]) by {
        assert(edge_attached(old_nodes, edges[i]));
    }
    lemma_masked_edges_wf(nodes, edges, mask);
}

impl<N, E> Flow<N, E> {
    /// Removes the node at `idx` and every edge touching it, keeping the
    /// order of the rest. Returns `None` if `idx` is out of bounds.
    pub fn remove_node_at(&mut self, idx: usize) -> (r: Option<Node<N>>)
        requires
            old(self).wf(),
        ensures
            final(self).wf(),
            final(self).same_settings(old(self)),
            idx >= old(self).node_seq().len() ==> r is None && *final(self) == *old(self),
            idx < old(self).node_seq().len() ==> r == Some(old(self).node_seq()[idx as int])
                && final(self).node_seq() == old(self).node_seq().remove(idx as int)
                && final(self).edge_seq() == masked(old(self).edge_seq(),
                    untouched_mask(old(self).edge_seq(), old(self).node_seq()[idx as int].id@)),
    {
        if idx >= self.nodes.len() {
            return None;
        }
        proof {
            lemma_remove_node_wf(self.nodes@, self.edges@, idx as int);
        }
        let node = self.nodes.remove(idx);
        let mut keep: Vec<bool> = Vec::new();
        let mut i: usize = 0;
        while i < self.edges.len()
            invariant
                i <= self.edges@.len(),
                keep@.len() == i,
                forall|k: int| 0 <= k < i ==> keep@[k] == !touches(self.edges@[k], node.id@),
            decreases self.edges@.len() - i,
        {
            let t = string_eq(&self.edges[i].source, &node.id) || string_eq(&self.edges[i].target, &node.id);
            keep.push(!t);
            i = i + 1;
        }
        proof {
            assert(keep@ =~= untouched_mask(self.edges@, node.id@));
        }
        let mut edges: Vec<Edge<E>> = Vec::new();
        std::mem::swap(&mut edges, &mut self.edges);
        self.edges = retain_masked(edges, &keep);
        Some(node)
    }

    /// Removes the edge at `idx`. Returns `None` if `idx` is out of bounds.
    pub fn remove_edge_at(&mut self, idx: usize) -> (r: Option<Edge<E>>)
        requires
            old(self).wf(),
        ensures
            final(self).wf(),
            final(self).same_settings(old(self)),
            final(self).node_seq() == old(self).node_seq(),
            idx >= old(self).edge_seq().len() ==> r is None && *final(self) == *old(self),
            idx < old(self).edge_seq().len() ==> r == Some(old(self).edge_seq()[idx as int])
                && final(self).edge_seq() == old(self).edge_seq().remove(idx as int),
    {
        if idx >= self.edges.len() {
            return None;
        }
        let ghost es = self.edges@;
        let e = self.edges.remove(idx);
        proof {
            let r = es.remove(idx as int);
            assert forall|i: int, j: int| 0 <= i < r.len() && 0 <= j < r.len() && i != j
                implies #[trigger] r[i].id@ != #[trigger] r[j].id@ by {
                let i0 = if i < idx { i } else { i + 1 };
                let j0 = if j < idx { j } else { j + 1 };
                assert(r[i] == es[i0]);
                assert(r[j] == es[j0]);
            }
            assert forall|k: int| 0 <= k < r.len() implies edge_attached(self.nodes@, #[trigger] r[k]) by {
                let k0 = if k < idx { k } else { k + 1 };
                assert(r[k] == es[k0]);
            }
        }
        Some(e)
    }

    /// Removes a node by ID and every edge touching it.
    ///
    /// Returns the removed node, or `None` if no node has that ID.
    pub fn remove_node(&mut self, id: &str) -> (r: Option<Node<N>>)
        requires
            old(self).wf(),
        ensures
            final(self).wf(),
            final(self).same_settings(old(self)),
            !has_node(old(self).node_seq(), id@) ==> r is None && *final(self) == *old(self),
            has_node(old(self).node_seq(), id@) ==> exists|i: int| 0 <= i < old(self).node_seq().len()
                && old(self).node_seq()[i].id@ == id@
                && r == Some(old(self).node_seq()[i])
                && final(self).node_seq() == old(self).node_seq().remove(i)
                && final(self).edge_seq() == masked(old(self).edge_seq(), untouched_mask(old(self).edge_seq(), id@)),
    {
        match find_node(&self.nodes, id) {
            Some(i) => self.remove_node_at(i),
            None => None,
        }
    }

    /// Removes an edge by ID.
    ///
    /// Returns the removed edge, or `None` if no edge has that ID.
    pub fn remove_edge(&mut self, id: &str) -> (r: Option<Edge<E>>)
        requires
            old(self).wf(),
        ensures
            final(self).wf(),
            final(self).same_settings(old(self)),
            final(self).node_seq() == old(self).node_seq(),
            !has_edge(old(self).edge_seq(), id@) ==> r is None && *final(self) == *old(self),
            has_edge(old(self).edge_seq(), id@) ==> exists|i: int| 0 <= i < old(self).edge_seq().len()
                && old(self).edge_seq()[i].id@ == id@
                && r == Some(old(self).edge_seq()[i])
                && final(self).edge_seq() == old(self).edge_seq().remove(i),
    {
        match find_edge(&self.edges, id) {
            Some(i) => self.remove_edge_at(i),
            None => None,
        }
    }
}

impl<N, E> Flow<N, E> {
    /// Removes all selected deletable nodes and every edge touching them.
    ///
    /// Returns the removed nodes, in order.
    pub fn remove_selected_nodes(&mut self) -> (r: Vec<Node<N>>)
        requires
            old(self).wf(),
        ensures
            final(self).wf(),
            final(self).same_settings(old(self)),
            r@ == masked(old(self).node_seq(), negated(kept_unless_selected_deletable(old(self).node_seq()))),
            final(self).node_seq() == masked(old(self).node_seq(), kept_unless_selected_deletable(old(self).node_seq())),
            final(self).edge_seq() == masked(old(self).edge_seq(),
                attached_mask(final(self).node_seq(), old(self).edge_seq())),
            deletion_respects_flags(old(self).node_seq(), final(self).node_seq()),
            forall|k: int| 0 <= k < r@.len() ==> (#[trigger] r@[k]).selected && r@[k].deletable,
    {
        let ghost (ns, es) = (self.nodes@, self.edges@);
        let mut keep: Vec<bool> = Vec::new();
        let mut i: usize = 0;
        while i < self.nodes.len()
            invariant
                i <= self.nodes@.len(),
                keep@.len() == i,
                forall|k: int| 0 <= k < i ==> keep@[k] == kept_unless_selected_deletable(self.nodes@)[k],
            decreases self.nodes@.len() - i,
        {
            keep.push(!(self.nodes[i].selected && self.nodes[i].deletable));
            i = i + 1;
        }
        assert(keep@ =~= kept_unless_selected_deletable(self.nodes@));
        let mut nodes: Vec<Node<N>> = Vec::new();
        std::mem::swap(&mut nodes, &mut self.nodes);
        let (kept, removed) = split_masked(nodes, &keep);
        self.nodes = kept;
        proof {
            lemma_masked_nodes_unique(ns, keep@);
            lemma_reattach_wf(ns, self.nodes@, es);
        }
        let emask = attached_edge_mask(&self.nodes, &self.edges);
        let mut edges: Vec<Edge<E>> = Vec::new();
        std::mem::swap(&mut edges, &mut self.edges);
        self.edges = retain_masked(edges, &emask);
        proof {
            lemma_selected_deletion_respects_deletable(ns);
        }
        removed
    }

    /// Removes all selected deletable edges.
    ///
    /// Returns the removed edges, in order.
    pub fn remove_selected_edges(&mut self) -> (r: Vec<Edge<E>>)
        requires
            old(self).wf(),
        ensures
            final(self).wf(),
            final(self).same_settings(old(self)),
            final(self).node_seq() == old(self).node_seq(),
            r@ == masked(old(self).edge_seq(), negated(edges_kept_unless_selected_deletable(old(self).edge_seq()))),
            final(self).edge_seq() == masked(old(self).edge_seq(), edges_kept_unless_selected_deletable(old(self).edge_seq())),
            forall|i: int| 0 <= i < old(self).edge_seq().len()
                && !((#[trigger] old(self).edge_seq()[i]).selected && old(self).edge_seq()[i].deletable)
                ==> final(self).edge_seq().contains(old(self).edge_seq()[i]),
            forall|k: int| 0 <= k < r@.len() ==> (#[trigger] r@[k]).selected && r@[k].deletable,
    {
        proof {
            lemma_selected_edge_deletion_respects_deletable(old(self).edge_seq());
        }
        let ghost es = self.edges@;
        let mut keep: Vec<bool> = Vec::new();
        let mut i: usize = 0;
        while i < self.edges.len()
            invariant
                i <= self.edges@.len(),
                keep@.len() == i,
                forall|k: int| 0 <= k < i ==> keep@[k] == edges_kept_unless_selected_deletable(self.edges@)[k],
            decreases self.edges@.len() - i,
        {
            keep.push(!(self.edges[i].selected && self.edges[i].deletable));
            i = i + 1;
        }
        assert(keep@ =~= edges_kept_unless_selected_deletable(self.edges@));
        let mut edges: Vec<Edge<E>> = Vec::new();
        std::mem::swap(&mut edges, &mut self.edges);
        let (kept, removed) = split_masked(edges, &keep);
        self.edges = kept;
        proof {
            assert forall|i: int| 0 <= i < es.len() && #[trigger] keep@[i] implies edge_attached(self.nodes@, es[i]) by {
                assert(edge_attached(self.nodes@, es[i]));
            }
            lemma_masked_edges_wf(self.nodes@, es, keep@);
        }
        removed
    }

    /// Keeps only the nodes for which `f` returns `true`, in order, and the
    /// edges whose endpoints both remain.
    pub fn retain_nodes<F: Fn(&Node<N>) -> bool>(&mut self, f: F)
        requires
            old(self).wf(),
            forall|n: &Node<N>| f.requires((n,)),
        ensures
            final(self).wf(),
            final(self).same_settings(old(self)),
            exists|m: Seq<bool>| #![trigger masked(old(self).node_seq(), m)] m.len() == old(self).node_seq().len()
                && (forall|i: int| 0 <= i < m.len() ==> f.ensures((&old(self).node_seq()[i],), #[trigger] m[i]))
                && final(self).node_seq() == masked(old(self).node_seq(), m),
            final(self).edge_seq() == masked(old(self).edge_seq(),
                attached_mask(final(self).node_seq(), old(self).edge_seq())),
    {
        let ghost (ns, es) = (self.nodes@, self.edges@);
        let mut keep: Vec<bool> = Vec::new();
        let mut i: usize = 0;
        while i < self.nodes.len()
            invariant
                i <= self.nodes@.len(),
                self.nodes@ == ns,
                keep@.len() == i,
                forall|n: &Node<N>| f.requires((n,)),
                forall|k: int| 0 <= k < i ==> f.ensures((&ns[k],), #[trigger] keep@[k]),
            decreases self.nodes@.len() - i,
        {
            let b = f(&self.nodes[i]);
            keep.push(b);
            i = i + 1;
        }
        let mut nodes: Vec<Node<N>> = Vec::new();
        std::mem::swap(&mut nodes, &mut self.nodes);
        self.nodes = retain_masked(nodes, &keep);
        proof {
            lemma_masked_nodes_unique(ns, keep@);
            lemma_reattach_wf(ns, self.nodes@, es);
        }
        let emask = attached_edge_mask(&self.nodes, &self.edges);
        let mut edges: Vec<Edge<E>> = Vec::new();
        std::mem::swap(&mut edges, &mut self.edges);
        self.edges = retain_masked(edges, &emask);
    }

    /// Replaces all nodes; edges that lose an endpoint are removed.
    ///
    /// Fails, leaving the graph as it was, on a duplicate node ID or, node by
    /// node, on a missing parent or ambiguous or duplicate handle IDs.
    pub fn set_nodes(&mut self, nodes: Vec<Node<N>>) -> (r: Result<(), Error>)
        requires
            old(self).wf(),
        ensures
            final(self).wf(),
            match set_nodes_problem(nodes@) {
                None => r is Ok && final(self).node_seq() == nodes@
                    && final(self).edge_seq() == masked(old(self).edge_seq(), attached_mask(nodes@, old(self).edge_seq()))
                    && final(self).same_settings(old(self)),
                Some(p) => r matches Err(e) && reports(e, p) && *final(self) == *old(self),
            },
    {
        if let Some(i) = check_node_ids(&nodes) {
            return Err(Error::DuplicateNodeId { node_id: copy_string(&nodes[i].id) });
        }
        check_nodes(&nodes)?;
        let ghost (ns, es) = (self.nodes@, self.edges@);
        proof {
            crate::state::model::lemma_first_in(node_dup_pred(nodes@), nodes@.len() as int);
            assert forall|i: int, j: int| 0 <= i < nodes@.len() && 0 <= j < nodes@.len() && i != j
                implies #[trigger] nodes@[i].id@ != #[trigger] nodes@[j].id@ by {
                if i < j {
                    assert(!node_dup_pred(nodes@)(j));
                } else {
                    assert(!node_dup_pred(nodes@)(i));
                }
            }
            lemma_reattach_wf(ns, nodes@, es);
        }
        self.nodes = nodes;
        let emask = attached_edge_mask(&self.nodes, &self.edges);
        let mut edges: Vec<Edge<E>> = Vec::new();
        std::mem::swap(&mut edges, &mut self.edges);
        self.edges = retain_masked(edges, &emask);
        Ok(())
    }

    /// Replaces all edges.
    ///
    /// Fails, leaving the graph as it was, on the first edge that repeats an
    /// earlier ID, joins a node to itself, or names a missing node.
    pub fn set_edges(&mut self, edges: Vec<Edge<E>>) -> (r: Result<(), Error>)
        requires
            old(self).wf(),
        ensures
            final(self).wf(),
            match set_edges_problem(old(self).node_seq(), edges@) {
                None => r is Ok && final(self).edge_seq() == edges@
                    && final(self).node_seq() == old(self).node_seq()
                    && final(self).same_settings(old(self)),
                Some(p) => r matches Err(e) && reports(e, p) && *final(self) == *old(self),
            },
    {
        let ghost pred = set_edges_pred(self.nodes@, edges@);
        let mut i: usize = 0;
        while i < edges.len()
            invariant
                i <= edges@.len(),
                self.wf(),
                pred == set_edges_pred(self.nodes@, edges@),
                first_in(pred, i as int) is None,
            decreases edges@.len() - i,
        {
            let mut j: usize = 0;
            while j < i
                invariant
                    j <= i < edges@.len(),
                    self.wf(),
                    pred == set_edges_pred(self.nodes@, edges@),
                    first_in(pred, i as int) is None,
                    forall|k: int| 0 <= k < j ==> (#[trigger] edges@[k]).id@ != edges@[i as int].id@,
                decreases i - j,
            {
                if string_eq(&edges[j].id, &edges[i].id) {
                    proof {
                        assert(edge_dup_at(edges@, i as int));
                        assert(pred(i as int));
                        assert(first_in(pred, i + 1) == Some(i as int));
                        lemma_first_in_stable(pred, i + 1, edges@.len() as int);
                    }
                    return Err(Error::DuplicateEdgeId { edge_id: copy_string(&edges[i].id) });
                }
                j = j + 1;
            }
            assert(!edge_dup_at(edges@, i as int));
            let c = check_edge(&self.nodes, &edges[i]);
            if c.is_err() {
                proof {
                    assert(pred(i as int));
                    assert(first_in(pred, i + 1) == Some(i as int));
                    lemma_first_in_stable(pred, i + 1, edges@.len() as int);
                }
                return c;
            }
            assert(!pred(i as int));
            i = i + 1;
        }
        proof {
            lemma_first_in(pred, edges@.len() as int);
            assert forall|a: int, b: int| 0 <= a < edges@.len() && 0 <= b < edges@.len() && a != b
                implies #[trigger] edges@[a].id@ != #[trigger] edges@[b].id@ by {
                if a < b {
                    assert(!pred(b));
                } else {
                    assert(!pred(a));
                }
            }
            assert forall|k: int| 0 <= k < edges@.len() implies edge_attached(self.nodes@, #[trigger] edges@[k]) by {
                assert(!pred(k));
            }
        }
        self.edges = edges;
        Ok(())
    }

    /// Reconnects an existing edge to new endpoints, keeping its content and
    /// flags; the edge moves to the end and takes the connection's ID.
    ///
    /// Returns `None` if no edge has `edge_id`. Otherwise the old edge is
    /// removed, the new one is added if its ID is free and it joins two
    /// distinct existing nodes, and the new ID is returned either way.
    pub fn reconnect_edge(&mut self, edge_id: &str, new_connection: Connection) -> (r: Option<String>)
        requires
            old(self).wf(),
        ensures
            final(self).wf(),
            final(self).node_seq() == old(self).node_seq(),
            final(self).same_settings(old(self)),
            !has_edge(old(self).edge_seq(), edge_id@) ==> r is None && *final(self) == *old(self),
            has_edge(old(self).edge_seq(), edge_id@) ==> exists|i: int| 0 <= i < old(self).edge_seq().len()
                && old(self).edge_seq()[i].id@ == edge_id@
                && (r matches Some(nid) && nid@ == new_connection.spec_edge_id())
                && ({
                    let rest = old(self).edge_seq().remove(i);
                    if !has_edge(rest, new_connection.spec_edge_id())
                        && endpoints_ok(old(self).node_seq(), new_connection.source@, new_connection.target@) {
                        final(self).edge_seq().len() == rest.len() + 1
                            && final(self).edge_seq().drop_last() == rest
                            && is_reconnected(final(self).edge_seq().last(), old(self).edge_seq()[i], new_connection)
                    } else {
                        final(self).edge_seq() == rest
                    }
                }),
    {
        let old_edge = match self.remove_edge(edge_id) {
            Some(e) => e,
            None => {
                return None;
            },
        };
        let new_id = new_connection.edge_id();
        let ret = copy_string(&new_id);
        let new_edge = Edge {
            id: new_id,
            source: new_connection.source,
            target: new_connection.target,
            source_handle: new_connection.source_handle,
            target_handle: new_connection.target_handle,
            content: old_edge.content,
            hidden: old_edge.hidden,
            deletable: old_edge.deletable,
            selectable: old_edge.selectable,
            selected: old_edge.selected,
            animated: old_edge.animated,
            label: old_edge.label,
            reconnectable: old_edge.reconnectable,
        };
        let _ = self.add_edge(new_edge);
        Some(ret)
    }

    /// Removes all nodes and edges.
    pub fn clear(&mut self)
        ensures
            final(self).wf(),
            final(self).node_seq().len() == 0,
            final(self).edge_seq().len() == 0,
            final(self).same_config(old(self)),
            final(self).snapshot_node_ids() == old(self).snapshot_node_ids(),
            final(self).snapshot_edge_ids() == old(self).snapshot_edge_ids(),
            final(self).preview() is None,
    {
        self.nodes = Vec::new();
        self.edges = Vec::new();
        self.edge_preview = None;
    }

    /// Keeps only the edges for which `f` returns `true`, in order.
    pub fn retain_edges<F: Fn(&Edge<E>) -> bool>(&mut self, f: F)
        requires
            old(self).wf(),
            forall|e: &Edge<E>| f.requires((e,)),
        ensures
            final(self).wf(),
            final(self).same_settings(old(self)),
            final(self).node_seq() == old(self).node_seq(),
            exists|m: Seq<bool>| #![trigger masked(old(self).edge_seq(), m)] m.len() == old(self).edge_seq().len()
                && (forall|i: int| 0 <= i < m.len() ==> f.ensures((&old(self).edge_seq()[i],), #[trigger] m[i]))
                && final(self).edge_seq() == masked(old(self).edge_seq(), m),
    {
        let ghost es = self.edges@;
        let mut keep: Vec<bool> = Vec::new();
        let mut i: usize = 0;
        while i < self.edges.len()
            invariant
                i <= self.edges@.len(),
                self.edges@ == es,
                keep@.len() == i,
                forall|e: &Edge<E>| f.requires((e,)),
                forall|k: int| 0 <= k < i ==> f.ensures((&es[k],), #[trigger] keep@[k]),
            decreases self.edges@.len() - i,
        {
            let b = f(&self.edges[i]);
            keep.push(b);
            i = i + 1;
        }
        let mut edges: Vec<Edge<E>> = Vec::new();
        std::mem::swap(&mut edges, &mut self.edges);
        self.edges = retain_masked(edges, &keep);
        proof {
            assert forall|i: int| 0 <= i < es.len() && #[trigger] keep@[i] implies edge_attached(self.nodes@, es[i]) by {
                assert(edge_attached(self.nodes@, es[i]));
            }
            lemma_masked_edges_wf(self.nodes@, es, keep@);
        }
    }
}

} // verus!
