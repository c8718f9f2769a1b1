//! The mathematical model of a flow graph: uniqueness of identifiers, the
//! validation problems a graph can have, and the order they are reported in.

use vstd::prelude::*;
use crate::error::Error;
use crate::strs::opt_chars;
use crate::types::{Edge, Handle, HandleType, Node};

verus! {

/// The first index below `k` at which `p` holds, scanning upward from 0.
pub open spec fn first_in(p: spec_fn(int) -> bool, k: int) -> Option<int>
    decreases k,
{
    if k <= 0 {
        None
    } else {
        match first_in(p, k - 1) {
            Some(i) => Some(i),
            None => if p(k - 1) { Some(k - 1) } else { None },
        }
    }
}

/// `first_in` finds an index where `p` holds, below `k`, with no earlier one.
pub proof fn lemma_first_in(p: spec_fn(int) -> bool, k: int)
    ensures
        first_in(p, k) matches Some(i) ==> 0 <= i < k && p(i) && forall|j: int| 0 <= j < i ==> !#[trigger] p(j),
        first_in(p, k) is None ==> forall|j: int| 0 <= j < k ==> !#[trigger] p(j),
    decreases k,
{
    if k > 0 {
        lemma_first_in(p, k - 1);
    }
}

/// Predicates that agree below `k` find the same first index there.
pub proof fn lemma_first_in_agree(p: spec_fn(int) -> bool, q: spec_fn(int) -> bool, k: int)
    requires
        forall|i: int| 0 <= i < k ==> #[trigger] p(i) == q(i),
    ensures
        first_in(p, k) == first_in(q, k),
    decreases k,
{
    if k > 0 {
        lemma_first_in_agree(p, q, k - 1);
    }
}

/// Once found below `k`, the first index stays the same for every larger bound.
pub proof fn lemma_first_in_stable(p: spec_fn(int) -> bool, k: int, m: int)
    requires
        k <= m,
        first_in(p, k) is Some,
    ensures
        first_in(p, m) == first_in(p, k),
    decreases m - k,
{
    if k < m {
        lemma_first_in_stable(p, k, m - 1);
    }
}

/// Some node of `nodes` has the identifier `id`.
pub open spec fn has_node<N>(nodes: Seq<Node<N>>, id: Seq<char>) -> bool {
    exists|i: int| 0 <= i < nodes.len() && #[trigger] nodes[i].id@ == id
}

/// Some edge of `edges` has the identifier `id`.
pub open spec fn has_edge<E>(edges: Seq<Edge<E>>, id: Seq<char>) -> bool {
    exists|i: int| 0 <= i < edges.len() && #[trigger] edges[i].id@ == id
}

/// No two nodes share an identifier.
pub open spec fn node_ids_unique<N>(nodes: Seq<Node<N>>) -> bool {
    forall|i: int, j: int| 0 <= i < nodes.len() && 0 <= j < nodes.len() && i != j
        ==> #[trigger] nodes[i].id@ != #[trigger] nodes[j].id@
}

/// No two edges share an identifier.
pub open spec fn edge_ids_unique<E>(edges: Seq<Edge<E>>) -> bool {
    forall|i: int, j: int| 0 <= i < edges.len() && 0 <= j < edges.len() && i != j
        ==> #[trigger] edges[i].id@ != #[trigger] edges[j].id@
}

/// The edge joins two distinct nodes of `nodes`.
pub open spec fn edge_attached<N, E>(nodes: Seq<Node<N>>, e: Edge<E>) -> bool {
    &&& e.source@ != e.target@
    &&& has_node(nodes, e.source@)
    &&& has_node(nodes, e.target@)
}

/// Every edge joins two distinct nodes of `nodes`.
pub open spec fn edges_attached<N, E>(nodes: Seq<Node<N>>, edges: Seq<Edge<E>>) -> bool {
    forall|i: int| 0 <= i < edges.len() ==> edge_attached(nodes, #[trigger] edges[i])
}

/// The well-formedness of a graph: identifiers are unique and every edge
/// joins two distinct existing nodes.
pub open spec fn graph_wf<N, E>(nodes: Seq<Node<N>>, edges: Seq<Edge<E>>) -> bool {
    &&& node_ids_unique(nodes)
    &&& edge_ids_unique(edges)
    &&& edges_attached(nodes, edges)
}

/// Changing nodes and edges without changing any ID or endpoint keeps a
/// graph well formed.
pub proof fn lemma_same_ids_wf<N, E>(
    nodes: Seq<Node<N>>,
    edges: Seq<Edge<E>>,
    nodes2: Seq<Node<N>>,
    edges2: Seq<Edge<E>>,
)
    requires
        graph_wf(nodes, edges),
        nodes2.len() == nodes.len(),
        edges2.len() == edges.len(),
        forall|i: int| 0 <= i < nodes.len() ==> (#[trigger] nodes2[i]).id == nodes[i].id,
        forall|i: int| 0 <= i < edges.len() ==> (#[trigger] edges2[i]).id == edges[i].id
            && edges2[i].source == edges[i].source && edges2[i].target == edges[i].target,
    ensures
        graph_wf(nodes2, edges2),
{
    assert forall|a: int, b: int| 0 <= a < nodes2.len() && 0 <= b < nodes2.len() && a != b
        implies #[trigger] nodes2[a].id@ != #[trigger] nodes2[b].id@ by {
        assert(nodes2[a].id == nodes[a].id);
        assert(nodes2[b].id == nodes[b].id);
    }
    assert forall|a: int, b: int| 0 <= a < edges2.len() && 0 <= b < edges2.len() && a != b
        implies #[trigger] edges2[a].id@ != #[trigger] edges2[b].id@ by {
        assert(edges2[a].id == edges[a].id);
        assert(edges2[b].id == edges[b].id);
    }
    assert forall|k: int| 0 <= k < edges2.len() implies edge_attached(nodes2, #[trigger] edges2[k]) by {
        let e = edges[k];
        assert(edges2[k].id == e.id);
        assert(edge_attached(nodes, e));
        let a = choose|j: int| 0 <= j < nodes.len() && #[trigger] nodes[j].id@ == e.source@;
        let b = choose|j: int| 0 <= j < nodes.len() && #[trigger] nodes[j].id@ == e.target@;
        assert(nodes2[a].id == nodes[a].id);
        assert(nodes2[b].id == nodes[b].id);
    }
}

// ---------------------------------------------------------------- handles

/// Number of handles of type `t` in `hs`.
pub open spec fn typed_count(hs: Seq<Handle>, t: HandleType) -> nat
    decreases hs.len(),
{
    if hs.len() == 0 {
        0
    } else {
        typed_count(hs.drop_last(), t) + if hs.last().handle_type == t { 1nat } else { 0nat }
    }
}

/// Number of handles of type `t` in `hs` without an ID.
pub open spec fn unnamed_count(hs: Seq<Handle>, t: HandleType) -> nat
    decreases hs.len(),
{
    if hs.len() == 0 {
        0
    } else {
        unnamed_count(hs.drop_last(), t) + if hs.last().handle_type == t && hs.last().id is None {
            1nat
        } else {
            0nat
        }
    }
}

/// Handle `i` has type `t` and an ID that an earlier handle of type `t` already carries.
pub open spec fn handle_dup_at(hs: Seq<Handle>, t: HandleType, i: int) -> bool {
    &&& hs[i].handle_type == t
    &&& hs[i].id is Some
    &&& exists|j: int| 0 <= j < i && (#[trigger] hs[j]).handle_type == t
            && opt_chars(hs[j].id) == opt_chars(hs[i].id)
}

/// What is wrong with the handles of one type on a node.
pub enum HandleProblem {
    /// Several handles of the type, this many of them without an ID.
    Ambiguous(nat),
    /// Several handles of the type share this ID.
    Duplicate(Seq<char>),
}

/// The first problem with the handles of type `t`, if any: with more than
/// one such handle, all need IDs, and no ID may repeat.
pub open spec fn handle_problem(hs: Seq<Handle>, t: HandleType) -> Option<HandleProblem> {
    if typed_count(hs, t) <= 1 {
        None
    } else if unnamed_count(hs, t) > 0 {
        Some(HandleProblem::Ambiguous(unnamed_count(hs, t)))
    } else {
        match first_in(handle_dup_pred(hs, t), hs.len() as int) {
            Some(i) => Some(HandleProblem::Duplicate(hs[i].id->0@)),
            None => None,
        }
    }
}

/// The first problem with a node's handles: source handles are checked first.
pub open spec fn handles_problem(hs: Seq<Handle>) -> Option<(HandleType, HandleProblem)> {
    match handle_problem(hs, HandleType::Source) {
        Some(p) => Some((HandleType::Source, p)),
        None => match handle_problem(hs, HandleType::Target) {
            Some(p) => Some((HandleType::Target, p)),
            None => None,
        },
    }
}

/// The name of a handle type as reported in errors.
pub open spec fn handle_type_label(t: HandleType) -> Seq<char> {
    match t {
        HandleType::Source => seq!['s', 'o', 'u', 'r', 'c', 'e'],
        HandleType::Target => seq!['t', 'a', 'r', 'g', 'e', 't'],
    }
}

// ---------------------------------------------------------------- graph problems

/// A validation problem of a graph, over identifiers.
pub enum GraphProblem {
    /// Two nodes share this ID.
    DuplicateNode(Seq<char>),
    /// Two edges share this ID.
    DuplicateEdge(Seq<char>),
    /// The edge (first) joins the node (second) to itself.
    SelfReferential(Seq<char>, Seq<char>),
    /// The edge (first) names the node (second), which does not exist.
    MissingEndpoint(Seq<char>, Seq<char>),
    /// The node (first) names the parent (second), which does not exist.
    MissingParent(Seq<char>, Seq<char>),
    /// The node (first) has a problem with its handles of a type.
    Handles(Seq<char>, HandleType, HandleProblem),
}

/// Node `i` repeats the ID of an earlier node.
pub open spec fn node_dup_at<N>(nodes: Seq<Node<N>>, i: int) -> bool {
    exists|j: int| 0 <= j < i && (#[trigger] nodes[j]).id@ == nodes[i].id@
}

/// The predicate "node `i` repeats an earlier ID".
pub open spec fn node_dup_pred<N>(nodes: Seq<Node<N>>) -> spec_fn(int) -> bool {
    |i: int| node_dup_at(nodes, i)
}

/// Edge `i` repeats the ID of an earlier edge.
pub open spec fn edge_dup_at<E>(edges: Seq<Edge<E>>, i: int) -> bool {
    exists|j: int| 0 <= j < i && (#[trigger] edges[j]).id@ == edges[i].id@
}

/// The predicate "edge `i` repeats an earlier ID".
pub open spec fn edge_dup_pred<E>(edges: Seq<Edge<E>>) -> spec_fn(int) -> bool {
    |i: int| edge_dup_at(edges, i)
}

/// The predicate "handle `i` of type `t` repeats an earlier ID".
pub open spec fn handle_dup_pred(hs: Seq<Handle>, t: HandleType) -> spec_fn(int) -> bool {
    |i: int| handle_dup_at(hs, t, i)
}

/// The problem of a single edge against the node set: a self-loop first,
/// then a missing source, then a missing target.
pub open spec fn edge_problem<N, E>(member: spec_fn(Seq<char>) -> bool, e: Edge<E>) -> Option<GraphProblem> {
    if e.source@ == e.target@ {
        Some(GraphProblem::SelfReferential(e.id@, e.source@))
    } else if !member(e.source@) {
        Some(GraphProblem::MissingEndpoint(e.id@, e.source@))
    } else if !member(e.target@) {
        Some(GraphProblem::MissingEndpoint(e.id@, e.target@))
    } else {
        None
    }
}

/// The problem of a single node against the node set: a missing parent
/// first, then its handles.
pub open spec fn node_problem<N>(member: spec_fn(Seq<char>) -> bool, n: Node<N>) -> Option<GraphProblem> {
    match n.parent_id {
        Some(p) if !member(p@) => Some(GraphProblem::MissingParent(n.id@, p@)),
        _ => match handles_problem(n.handles@) {
            Some((t, hp)) => Some(GraphProblem::Handles(n.id@, t, hp)),
            None => None,
        },
    }
}

/// The predicate "edge `i` has a problem".
pub open spec fn edge_problem_pred<N, E>(member: spec_fn(Seq<char>) -> bool, edges: Seq<Edge<E>>) -> spec_fn(int) -> bool {
    |i: int| edge_problem::<N, E>(member, edges[i]) is Some
}

/// The predicate "node `i` has a problem".
pub open spec fn node_problem_pred<N>(member: spec_fn(Seq<char>) -> bool, nodes: Seq<Node<N>>) -> spec_fn(int) -> bool {
    |i: int| node_problem(member, nodes[i]) is Some
}

/// The first problem among `edges`, checked in order against the node set.
pub open spec fn edges_problem<N, E>(member: spec_fn(Seq<char>) -> bool, edges: Seq<Edge<E>>) -> Option<GraphProblem> {
    match first_in(edge_problem_pred::<N, E>(member, edges), edges.len() as int) {
        Some(i) => edge_problem::<N, E>(member, edges[i]),
        None => None,
    }
}

/// The first problem among `nodes`, checked in order against the node set.
pub open spec fn nodes_problem<N>(member: spec_fn(Seq<char>) -> bool, nodes: Seq<Node<N>>) -> Option<GraphProblem> {
    match first_in(node_problem_pred(member, nodes), nodes.len() as int) {
        Some(i) => node_problem(member, nodes[i]),
        None => None,
    }
}

/// The membership test of a node set.
pub open spec fn member_of<N>(nodes: Seq<Node<N>>) -> spec_fn(Seq<char>) -> bool {
    |id: Seq<char>| has_node(nodes, id)
}

/// The first problem of a whole graph, in the order it is checked: duplicate
/// node IDs, duplicate edge IDs, then each edge, then each node.
pub open spec fn graph_problem<N, E>(nodes: Seq<Node<N>>, edges: Seq<Edge<E>>) -> Option<GraphProblem> {
    match first_in(node_dup_pred(nodes), nodes.len() as int) {
        Some(i) => Some(GraphProblem::DuplicateNode(nodes[i].id@)),
        None => match first_in(edge_dup_pred(edges), edges.len() as int) {
            Some(i) => Some(GraphProblem::DuplicateEdge(edges[i].id@)),
            None => match edges_problem::<N, E>(member_of(nodes), edges) {
                Some(p) => Some(p),
                None => nodes_problem(member_of(nodes), nodes),
            },
        },
    }
}

/// The error `e` reports the problem `p`.
pub open spec fn reports(e: Error, p: GraphProblem) -> bool {
    match p {
        GraphProblem::DuplicateNode(id) => e matches Error::DuplicateNodeId { node_id } && node_id@ == id,
        GraphProblem::DuplicateEdge(id) => e matches Error::DuplicateEdgeId { edge_id } && edge_id@ == id,
        GraphProblem::SelfReferential(eid, nid) =>
            e matches Error::SelfReferentialEdge { edge_id, node_id } && edge_id@ == eid && node_id@ == nid,
        GraphProblem::MissingEndpoint(eid, nid) =>
            e matches Error::InvalidEdgeReference { edge_id, node_id } && edge_id@ == eid && node_id@ == nid,
        GraphProblem::MissingParent(nid, pid) =>
            e matches Error::InvalidParentReference { node_id, parent_id } && node_id@ == nid && parent_id@ == pid,
        GraphProblem::Handles(nid, t, HandleProblem::Ambiguous(c)) =>
            e matches Error::AmbiguousHandles { node_id, handle_type, count }
                && node_id@ == nid && handle_type@ == handle_type_label(t) && count == c,
        GraphProblem::Handles(nid, t, HandleProblem::Duplicate(hid)) =>
            e matches Error::DuplicateHandleId { node_id, handle_type, handle_id }
                && node_id@ == nid && handle_type@ == handle_type_label(t) && handle_id@ == hid,
    }
}

/// A graph with no problem is well formed.
pub proof fn lemma_no_problem_wf<N, E>(nodes: Seq<Node<N>>, edges: Seq<Edge<E>>)
    requires
        graph_problem(nodes, edges) is None,
    ensures
        graph_wf(nodes, edges),
{
    lemma_first_in(node_dup_pred(nodes), nodes.len() as int);
    lemma_first_in(edge_dup_pred(edges), edges.len() as int);
    let pe = edge_problem_pred::<N, E>(member_of(nodes), edges);
    lemma_first_in(pe, edges.len() as int);
    assert forall|i: int, j: int| 0 <= i < nodes.len() && 0 <= j < nodes.len() && i != j
        implies #[trigger] nodes[i].id@ != #[trigger] nodes[j].id@ by {
        if i < j {
            assert(!node_dup_pred(nodes)(j));
        } else {
            assert(!node_dup_pred(nodes)(i));
        }
    }
    assert forall|i: int, j: int| 0 <= i < edges.len() && 0 <= j < edges.len() && i != j
        implies #[trigger] edges[i].id@ != #[trigger] edges[j].id@ by {
        if i < j {
            assert(!edge_dup_pred(edges)(j));
        } else {
            assert(!edge_dup_pred(edges)(i));
        }
    }
    assert forall|i: int| 0 <= i < edges.len() implies edge_attached(nodes, #[trigger] edges[i]) by {
        assert(!pe(i));
    }
}

} // verus!
