//! Validation of handles and whole graphs, reporting the first problem found.

use vstd::prelude::*;
use crate::error::Error;
use crate::state::lookup::find_node;
use crate::state::model::{
    edge_dup_pred, edge_problem, edge_problem_pred, edges_problem, first_in, graph_problem,
    handle_dup_pred, handle_problem, handle_type_label, handles_problem, lemma_first_in_stable,
    member_of, node_dup_pred, node_problem, node_problem_pred, nodes_problem, reports, typed_count,
    unnamed_count, GraphProblem,
};
use crate::strs::{copy_string, opt_chars, opt_eq, string_eq};
use crate::types::{Edge, Handle, HandleType, Node};

verus! {

/// The name of a handle type as reported in errors.
pub fn handle_type_str(t: HandleType) -> (r: &'static str)
    ensures
        r@ == handle_type_label(t),
{
    match t {
        HandleType::Source => {
            proof { reveal_strlit("source"); }
            "source"
        },
        HandleType::Target => {
            proof { reveal_strlit("target"); }
            "target"
        },
    }
}

/// Checks the handles of one type: with more than one of them, all need IDs
/// and no ID may repeat.
pub fn check_handles_of_type(node_id: &String, handles: &Vec<Handle>, t: HandleType) -> (r: Result<(), Error>)
    ensures
        match handle_problem(handles@, t) {
            None => r is Ok,
            Some(p) => r matches Err(e) && reports(e, GraphProblem::Handles(node_id@, t, p)),
        },
{
    let hs = Ghost(handles@);
    let mut typed: usize = 0;
    let mut unnamed: usize = 0;
    let mut i: usize = 0;
    while i < handles.len()
        invariant
            i <= handles@.len(),
            hs@ == handles@,
            typed == typed_count(handles@.take(i as int), t),
            unnamed == unnamed_count(handles@.take(i as int), t),
            typed <= i,
            unnamed <= typed,
        decreases handles@.len() - i,
    {
        proof {
            assert(handles@.take(i + 1).drop_last() =~= handles@.take(i as int));
        }
        if handles[i].handle_type == t {
            typed = typed + 1;
            if handles[i].id.is_none() {
                unnamed = unnamed + 1;
            }
        }
        i = i + 1;
    }
    proof {
        assert(handles@.take(handles@.len() as int) =~= handles@);
    }
    if typed <= 1 {
        return Ok(());
    }
    assert(typed_count(handles@, t) > 1);
    if unnamed > 0 {
        return Err(Error::AmbiguousHandles {
            node_id: copy_string(node_id),
            handle_type: handle_type_str(t),
            count: unnamed,
        });
    }
    let mut i: usize = 0;
    while i < handles.len()
        invariant
            i <= handles@.len(),
            typed_count(handles@, t) > 1,
            unnamed_count(handles@, t) == 0,
            first_in(handle_dup_pred(handles@, t), i as int) is None,
        decreases handles@.len() - i,
    {
        if handles[i].handle_type == t && handles[i].id.is_some() {
            let mut j: usize = 0;
            while j < i
                invariant
                    j <= i < handles@.len(),
                    typed_count(handles@, t) > 1,
                    unnamed_count(handles@, t) == 0,
                    first_in(handle_dup_pred(handles@, t), i as int) is None,
                    handles@[i as int].handle_type == t,
                    handles@[i as int].id is Some,
                    forall|k: int| 0 <= k < j ==> !((#[trigger] handles@[k]).handle_type == t
                        && opt_chars(handles@[k].id) == opt_chars(handles@[i as int].id)),
                decreases i - j,
            {
                if handles[j].handle_type == t && opt_eq(&handles[j].id, &handles[i].id) {
                    proof {
                        assert(handle_dup_pred(handles@, t)(i as int));
                        assert(first_in(handle_dup_pred(handles@, t), i + 1) == Some(i as int));
                        lemma_first_in_stable(handle_dup_pred(handles@, t), i + 1, handles@.len() as int);
                    }
                    let dup = match &handles[i].id {
                        Some(s) => copy_string(s),
                        None => copy_string(node_id),
                    };
                    return Err(Error::DuplicateHandleId {
                        node_id: copy_string(node_id),
                        handle_type: handle_type_str(t),
                        handle_id: dup,
                    });
                }
                j = j + 1;
            }
            proof {
                assert(!handle_dup_pred(handles@, t)(i as int));
            }
        }
        i = i + 1;
    }
    Ok(())
}

/// Validates the handle IDs of a node: source handles first, then target handles.
pub fn validate_handles(node_id: &String, handles: &Vec<Handle>) -> (r: Result<(), Error>)
    ensures
        match handles_problem(handles@) {
            None => r is Ok,
            Some((t, p)) => r matches Err(e) && reports(e, GraphProblem::Handles(node_id@, t, p)),
        },
{
    check_handles_of_type(node_id, handles, HandleType::Source)?;
    check_handles_of_type(node_id, handles, HandleType::Target)
}

/// Checks one edge against a node set: a self-loop first, then a missing
/// source, then a missing target.
pub fn check_edge<N, E>(nodes: &Vec<Node<N>>, e: &Edge<E>) -> (r: Result<(), Error>)
    ensures
        match edge_problem::<N, E>(member_of(nodes@), *e) {
            None => r is Ok,
            Some(p) => r matches Err(x) && reports(x, p),
        },
{
    if string_eq(&e.source, &e.target) {
        return Err(Error::SelfReferentialEdge { edge_id: copy_string(&e.id), node_id: copy_string(&e.source) });
    }
    match find_node(nodes, e.source.as_str()) {
        None => {
            return Err(Error::InvalidEdgeReference { edge_id: copy_string(&e.id), node_id: copy_string(&e.source) });
        },
        Some(k) => {
            assert(nodes@[k as int].id@ == e.source@);
        },
    }
    match find_node(nodes, e.target.as_str()) {
        None => {
            return Err(Error::InvalidEdgeReference { edge_id: copy_string(&e.id), node_id: copy_string(&e.target) });
        },
        Some(k) => {
            assert(nodes@[k as int].id@ == e.target@);
        },
    }
    Ok(())
}

/// Checks one node against a node set: a missing parent first, then its handles.
pub fn check_node<N>(nodes: &Vec<Node<N>>, n: &Node<N>) -> (r: Result<(), Error>)
    ensures
        match node_problem(member_of(nodes@), *n) {
            None => r is Ok,
            Some(p) => r matches Err(x) && reports(x, p),
        },
{
    match &n.parent_id {
        Some(p) => {
            match find_node(nodes, p.as_str()) {
                None => {
                    return Err(Error::InvalidParentReference { node_id: copy_string(&n.id), parent_id: copy_string(p) });
                },
                Some(k) => {
                    assert(nodes@[k as int].id@ == p@);
                },
            }
        },
        None => {},
    }
    validate_handles(&n.id, &n.handles)
}

/// Checks each edge of `edges` in order against `nodes`.
pub fn check_edges<N, E>(nodes: &Vec<Node<N>>, edges: &Vec<Edge<E>>) -> (r: Result<(), Error>)
    ensures
        match edges_problem::<N, E>(member_of(nodes@), edges@) {
            None => r is Ok,
            Some(p) => r matches Err(x) && reports(x, p),
        },
{
    let ghost pred = edge_problem_pred::<N, E>(member_of(nodes@), edges@);
    let mut i: usize = 0;
    while i < edges.len()
        invariant
            i <= edges@.len(),
            pred == edge_problem_pred::<N, E>(member_of(nodes@), edges@),
            first_in(pred, i as int) is None,
        decreases edges@.len() - i,
    {
        let c = check_edge(nodes, &edges[i]);
        if c.is_err() {
            proof {
                assert(pred(i as int));
                assert(first_in(pred, i + 1) == Some(i as int));
                lemma_first_in_stable(pred, i + 1, edges@.len() as int);
            }
            return c;
        }
        proof {
            assert(!pred(i as int));
        }
        i = i + 1;
    }
    Ok(())
}

/// Checks each node of `nodes` in order against the node set itself.
pub fn check_nodes<N>(nodes: &Vec<Node<N>>) -> (r: Result<(), Error>)
    ensures
        match nodes_problem(member_of(nodes@), nodes@) {
            None => r is Ok,
            Some(p) => r matches Err(x) && reports(x, p),
        },
{
    let ghost pred = node_problem_pred(member_of(nodes@), nodes@);
    let mut i: usize = 0;
    while i < nodes.len()
        invariant
            i <= nodes@.len(),
            pred == node_problem_pred(member_of(nodes@), nodes@),
            first_in(pred, i as int) is None,
        decreases nodes@.len() - i,
    {
        let c = check_node(nodes, &nodes[i]);
        if c.is_err() {
            proof {
                assert(pred(i as int));
                assert(first_in(pred, i + 1) == Some(i as int));
                lemma_first_in_stable(pred, i + 1, nodes@.len() as int);
            }
            return c;
        }
        proof {
            assert(!pred(i as int));
        }
        i = i + 1;
    }
    Ok(())
}

/// Finds the first node that repeats the ID of an earlier node.
pub fn check_node_ids<N>(nodes: &Vec<Node<N>>) -> (r: Option<usize>)
    ensures
        r matches Some(i) ==> i < nodes@.len() && first_in(node_dup_pred(nodes@), nodes@.len() as int) == Some(i as int),
        r is None ==> first_in(node_dup_pred(nodes@), nodes@.len() as int) is None,
{
    let ghost pred = node_dup_pred(nodes@);
    let mut i: usize = 0;
    while i < nodes.len()
        invariant
            i <= nodes@.len(),
            pred == node_dup_pred(nodes@),
            first_in(pred, i as int) is None,
        decreases nodes@.len() - i,
    {
        let mut j: usize = 0;
        while j < i
            invariant
                j <= i < nodes@.len(),
                pred == node_dup_pred(nodes@),
                first_in(pred, i as int) is None,
                forall|k: int| 0 <= k < j ==> (#[trigger] nodes@[k]).id@ != nodes@[i as int].id@,
            decreases i - j,
        {
            if string_eq(&nodes[j].id, &nodes[i].id) {
                proof {
                    assert(pred(i as int));
                    assert(first_in(pred, i + 1) == Some(i as int));
                    lemma_first_in_stable(pred, i + 1, nodes@.len() as int);
                }
                return Some(i);
            }
            j = j + 1;
        }
        proof {
            assert(!pred(i as int));
        }
        i = i + 1;
    }
    None
}

/// Finds the first edge that repeats the ID of an earlier edge.
pub fn check_edge_ids<E>(edges: &Vec<Edge<E>>) -> (r: Option<usize>)
    ensures
        r matches Some(i) ==> i < edges@.len() && first_in(edge_dup_pred(edges@), edges@.len() as int) == Some(i as int),
        r is None ==> first_in(edge_dup_pred(edges@), edges@.len() as int) is None,
{
    let ghost pred = edge_dup_pred(edges@);
    let mut i: usize = 0;
    while i < edges.len()
        invariant
            i <= edges@.len(),
            pred == edge_dup_pred(edges@),
            first_in(pred, i as int) is None,
        decreases edges@.len() - i,
    {
        let mut j: usize = 0;
        while j < i
            invariant
                j <= i < edges@.len(),
                pred == edge_dup_pred(edges@),
                first_in(pred, i as int) is None,
                forall|k: int| 0 <= k < j ==> (#[trigger] edges@[k]).id@ != edges@[i as int].id@,
            decreases i - j,
        {
            if string_eq(&edges[j].id, &edges[i].id) {
                proof {
                    assert(pred(i as int));
                    assert(first_in(pred, i + 1) == Some(i as int));
                    lemma_first_in_stable(pred, i + 1, edges@.len() as int);
                }
                return Some(i);
            }
            j = j + 1;
        }
        proof {
            assert(!pred(i as int));
        }
        i = i + 1;
    }
    None
}

/// Validates a whole graph, reporting the first problem in checking order:
/// duplicate node IDs, duplicate edge IDs, each edge, then each node.
pub fn validate_graph<N, E>(nodes: &Vec<Node<N>>, edges: &Vec<Edge<E>>) -> (r: Result<(), Error>)
    ensures
        match graph_problem(nodes@, edges@) {
            None => r is Ok,
            Some(p) => r matches Err(x) && reports(x, p),
        },
{
    if let Some(i) = check_node_ids(nodes) {
        return Err(Error::DuplicateNodeId { node_id: copy_string(&nodes[i].id) });
    }
    if let Some(i) = check_edge_ids(edges) {
        return Err(Error::DuplicateEdgeId { edge_id: copy_string(&edges[i].id) });
    }
    check_edges(nodes, edges)?;
    check_nodes(nodes)
}

} // verus!
