//! Properties that relate several operations of a flow.

use vstd::prelude::*;
use crate::state::graph::{touches, untouched_mask};
use crate::state::model::{
    edge_dup_pred, edge_ids_unique, edge_problem, edge_problem_pred, first_in, graph_problem,
    handle_dup_pred, handle_problem, has_edge, has_node, lemma_first_in, member_of, node_dup_pred,
    node_ids_unique, node_problem, node_problem_pred, typed_count, unnamed_count,
};
use crate::state::preview::{completable, validity, EdgePreview};
use crate::state::retain::{lemma_masked, masked};
use crate::state::selection::{first_selected_node, next_index, node_selected_pred, nodes_selected_where, prev_index};
use crate::state::update::nodes_with;
use crate::state::gesture::{MouseHit, NodeDrag, Press};
use crate::state::Flow;
use crate::state::handles::{get_handle, typed_match};
use crate::strs::opt_chars;
use crate::types::{Connection, ConnectionMode, Edge, Handle, HandleType, Node};

verus! {

/// After a node is removed, no remaining edge has it as source or target.
pub proof fn lemma_removal_leaves_no_edge<E>(edges: Seq<Edge<E>>, id: Seq<char>)
    ensures
        forall|k: int| 0 <= k < masked(edges, untouched_mask(edges, id)).len()
            ==> !touches(#[trigger] masked(edges, untouched_mask(edges, id))[k], id),
{
    let m = untouched_mask(edges, id);
    lemma_masked(edges, m);
    assert forall|k: int| 0 <= k < masked(edges, m).len() implies !touches(#[trigger] masked(edges, m)[k], id) by {
        let i = crate::state::retain::masked_indices(edges.len(), m)[k];
        assert(m[i]);
    }
}

/// Flipping the selection of the same node twice gives the nodes back.
pub proof fn lemma_toggle_twice<N>(nodes: Seq<Node<N>>, id: Seq<char>)
    ensures
        nodes_with(nodes_with(nodes, id, |n: Node<N>| Node { selected: !n.selected, ..n }), id,
            |n: Node<N>| Node { selected: !n.selected, ..n }) == nodes,
{
    let f = |n: Node<N>| Node { selected: !n.selected, ..n };
    assert(nodes_with(nodes_with(nodes, id, f), id, f) =~= nodes);
}

/// Selecting the next node and then the previous one comes back to the
/// node selected first: with node `i` the first selected of `n > 0` nodes,
/// the next step selects only `next`, and the step back from there is `i`.
pub proof fn lemma_next_then_prev<N>(nodes: Seq<Node<N>>, i: int)
    requires
        0 <= i < nodes.len(),
        first_selected_node(nodes) == Some(i),
    ensures
        ({
            let n = nodes.len() as int;
            let k = next_index(Some(i), n);
            let after = nodes_selected_where(nodes, |j: int| j == k);
            &&& first_selected_node(after) == Some(k)
            &&& prev_index(first_selected_node(after), n) == i
        }),
{
    let n = nodes.len() as int;
    let k = next_index(Some(i), n);
    if i + 1 < n {
        vstd::arithmetic::div_mod::lemma_small_mod((i + 1) as nat, n as nat);
    } else {
        vstd::arithmetic::div_mod::lemma_mod_self_0(n);
    }
    assert(0 <= k < n);
    let after = nodes_selected_where(nodes, |j: int| j == k);
    let p = node_selected_pred(after);
    lemma_first_in(p, n);
    assert(p(k));
    if let Some(j) = first_in(p, n) {
        if j < k {
            assert(!p(j));
        }
        if k < j {
            assert(!p(k));
        }
    }
    crate::state::selection::lemma_prev_index(k, n);
}

/// A connection that exists already cannot be completed: once a preview
/// is validated against the edges, finding the connection among them makes
/// it invalid, and completing it gives nothing.
pub proof fn lemma_existing_connection_not_completed<E, V: Fn(&Connection) -> bool>(
    edges: Seq<Edge<E>>,
    v: V,
    ep: EdgePreview,
    s: Seq<char>,
    sh: Option<Seq<char>>,
    t: Seq<char>,
    th: Option<Seq<char>>,
)
    requires
        ep.is_valid matches Some(ok) && validity(edges, v, s, sh, t, th, ok),
        crate::state::graph::connected(edges, s, sh, t, th),
    ensures
        !completable(Some(ep)),
{
}

/// A connection is added once: after its edge is added, the edges have its
/// ID, so adding it again gives nothing.
pub proof fn lemma_connection_added_once<E>(edges: Seq<Edge<E>>, c: Connection, content: E, e: Edge<E>)
    requires
        crate::state::graph::is_edge_from_connection(e, c, content),
    ensures
        has_edge(edges.push(e), c.spec_edge_id()),
{
    assert(edges.push(e)[edges.len() as int] == e);
}

/// With selecting on drag turned off, a drag step of a node selects
/// nothing: every node and edge selected after it was selected before.
pub proof fn lemma_drag_without_select_on_drag_selects_nothing<N, E>(
    old: Flow<N, E>,
    new: Flow<N, E>,
    id: Seq<char>,
    drag_started: bool,
    selected: bool,
    exceeded: bool,
    r: NodeDrag,
)
    requires
        Flow::dragged(old, new, id, drag_started, selected, exceeded, r),
        !old.selects_on_drag(),
    ensures
        new.node_seq().len() == old.node_seq().len(),
        new.edge_seq().len() == old.edge_seq().len(),
        forall|k: int| 0 <= k < new.node_seq().len() && (#[trigger] new.node_seq()[k]).selected
            ==> old.node_seq()[k].selected,
        forall|k: int| 0 <= k < new.edge_seq().len() && (#[trigger] new.edge_seq()[k]).selected
            ==> old.edge_seq()[k].selected,
{
}

/// With selecting on drag and deselecting on drag both turned off, a drag
/// step of a node leaves the selection as it is.
pub proof fn lemma_drag_keeps_selection<N, E>(
    old: Flow<N, E>,
    new: Flow<N, E>,
    id: Seq<char>,
    drag_started: bool,
    selected: bool,
    exceeded: bool,
    r: NodeDrag,
)
    requires
        Flow::dragged(old, new, id, drag_started, selected, exceeded, r),
        !old.selects_on_drag(),
        !old.deselects_on_drag(),
    ensures
        new.node_seq() == old.node_seq(),
        new.edge_seq() == old.edge_seq(),
{
}

/// With deselecting on pane clicks turned off, a press on empty canvas
/// leaves the selection as it is.
pub proof fn lemma_pane_press_keeps_selection<N, E>(
    old: Flow<N, E>,
    new: Flow<N, E>,
    allow_drag: bool,
    multi: bool,
    select_now: bool,
    r: Press,
)
    requires
        Flow::pressed(old, new, MouseHit::Nothing, allow_drag, multi, select_now, r),
        !old.deselects_on_pane_click(),
    ensures
        new.node_seq() == old.node_seq(),
        new.edge_seq() == old.edge_seq(),
{
}

/// In multi-select mode a press on a node changes no other selection: every
/// other node and every edge is as before, and the pressed node is as
/// before or has its selection flipped.
pub proof fn lemma_multi_select_press_touches_one_node<N, E>(
    old: Flow<N, E>,
    new: Flow<N, E>,
    id: String,
    allow_drag: bool,
    select_now: bool,
    r: Press,
)
    requires
        Flow::pressed(old, new, MouseHit::Node { node_id: id }, allow_drag, true, select_now, r),
    ensures
        new.edge_seq() == old.edge_seq(),
        new.node_seq().len() == old.node_seq().len(),
        forall|k: int| 0 <= k < old.node_seq().len() ==> if (#[trigger] old.node_seq()[k]).id@ == id@ {
            new.node_seq()[k] == old.node_seq()[k]
                || new.node_seq()[k] == (Node { selected: !old.node_seq()[k].selected, ..old.node_seq()[k] })
        } else {
            new.node_seq()[k] == old.node_seq()[k]
        },
{
}

/// The handles of type `t` in `hs` are acceptable: at most one, or each
/// with an ID and no two with the same ID.
pub open spec fn handles_of_type_ok(hs: Seq<Handle>, t: HandleType) -> bool {
    typed_count(hs, t) <= 1 || {
        &&& forall|k: int| 0 <= k < hs.len() && (#[trigger] hs[k]).handle_type == t ==> hs[k].id is Some
        &&& forall|i: int, j: int| 0 <= j < i < hs.len() && (#[trigger] hs[i]).handle_type == t
            && (#[trigger] hs[j]).handle_type == t ==> opt_chars(hs[i].id) != opt_chars(hs[j].id)
    }
}

/// A graph that a flow accepts: node IDs and edge IDs unique, every edge
/// joining two distinct existing nodes, every parent existing, and the
/// handles of each type on each node acceptable.
pub open spec fn graph_acceptable<N, E>(nodes: Seq<Node<N>>, edges: Seq<Edge<E>>) -> bool {
    &&& node_ids_unique(nodes)
    &&& edge_ids_unique(edges)
    &&& forall|i: int| 0 <= i < edges.len() ==> {
        &&& (#[trigger] edges[i]).source@ != edges[i].target@
        &&& has_node(nodes, edges[i].source@)
        &&& has_node(nodes, edges[i].target@)
    }
    &&& forall|i: int| 0 <= i < nodes.len() ==> {
        &&& ((#[trigger] nodes[i]).parent_id matches Some(p) ==> has_node(nodes, p@))
        &&& handles_of_type_ok(nodes[i].handles@, HandleType::Source)
        &&& handles_of_type_ok(nodes[i].handles@, HandleType::Target)
    }
}

/// No handle of type `t` lacks an ID exactly when none is counted.
proof fn lemma_unnamed_zero(hs: Seq<Handle>, t: HandleType)
    ensures
        unnamed_count(hs, t) == 0 <==> forall|k: int| 0 <= k < hs.len() && (#[trigger] hs[k]).handle_type == t ==> hs[k].id is Some,
    decreases hs.len(),
{
    if hs.len() > 0 {
        let init = hs.drop_last();
        lemma_unnamed_zero(init, t);
        if unnamed_count(hs, t) == 0 {
            assert forall|k: int| 0 <= k < hs.len() && (#[trigger] hs[k]).handle_type == t implies hs[k].id is Some by {
                if k < hs.len() - 1 {
                    assert(init[k] == hs[k]);
                }
            }
        } else {
            if unnamed_count(init, t) > 0 {
                let k = choose|k: int| 0 <= k < init.len() && (#[trigger] init[k]).handle_type == t && !(init[k].id is Some);
                assert(hs[k] == init[k]);
            } else {
                assert(hs[hs.len() - 1].handle_type == t && hs[hs.len() - 1].id is None);
            }
        }
    }
}

/// The handles of type `t` have no problem exactly when they are acceptable.
proof fn lemma_handle_problem_iff(hs: Seq<Handle>, t: HandleType)
    ensures
        handle_problem(hs, t) is None <==> handles_of_type_ok(hs, t),
{
    lemma_unnamed_zero(hs, t);
    let p = handle_dup_pred(hs, t);
    lemma_first_in(p, hs.len() as int);
    if typed_count(hs, t) > 1 && unnamed_count(hs, t) == 0 {
        if first_in(p, hs.len() as int) is None {
            assert forall|i: int, j: int| 0 <= j < i < hs.len() && (#[trigger] hs[i]).handle_type == t
                && (#[trigger] hs[j]).handle_type == t implies opt_chars(hs[i].id) != opt_chars(hs[j].id) by {
                assert(!p(i));
            }
        } else {
            let i = first_in(p, hs.len() as int)->0;
            assert(p(i));
            let j = choose|j: int| 0 <= j < i && (#[trigger] hs[j]).handle_type == t
                && opt_chars(hs[j].id) == opt_chars(hs[i].id);
            assert(!handles_of_type_ok(hs, t));
        }
    }
}

/// Whether a flow accepts a graph: `with_graph` and the checks behind it
/// fail exactly when two nodes or two edges share an ID, an edge joins a
/// node to itself or names a node that does not exist, a node names a
/// parent that does not exist, or a node has several handles of one type
/// of which one lacks an ID or two share one.
pub proof fn lemma_graph_problem_iff<N, E>(nodes: Seq<Node<N>>, edges: Seq<Edge<E>>)
    ensures
        graph_problem(nodes, edges) is None <==> graph_acceptable(nodes, edges),
{
    let member = member_of(nodes);
    let nd = node_dup_pred(nodes);
    let ed = edge_dup_pred(edges);
    let ep = edge_problem_pred::<N, E>(member, edges);
    let np = node_problem_pred(member, nodes);
    lemma_first_in(nd, nodes.len() as int);
    lemma_first_in(ed, edges.len() as int);
    lemma_first_in(ep, edges.len() as int);
    lemma_first_in(np, nodes.len() as int);
    // Node IDs.
    if first_in(nd, nodes.len() as int) is None {
        assert forall|i: int, j: int| 0 <= i < nodes.len() && 0 <= j < nodes.len() && i != j
            implies #[trigger] nodes[i].id@ != #[trigger] nodes[j].id@ by {
            if i < j { assert(!nd(j)); } else { assert(!nd(i)); }
        }
    } else {
        let i = first_in(nd, nodes.len() as int)->0;
        assert(nd(i));
        let j = choose|j: int| 0 <= j < i && (#[trigger] nodes[j]).id@ == nodes[i].id@;
        assert(!node_ids_unique(nodes));
    }
    // Edge IDs.
    if first_in(ed, edges.len() as int) is None {
        assert forall|i: int, j: int| 0 <= i < edges.len() && 0 <= j < edges.len() && i != j
            implies #[trigger] edges[i].id@ != #[trigger] edges[j].id@ by {
            if i < j { assert(!ed(j)); } else { assert(!ed(i)); }
        }
    } else {
        let i = first_in(ed, edges.len() as int)->0;
        assert(ed(i));
        let j = choose|j: int| 0 <= j < i && (#[trigger] edges[j]).id@ == edges[i].id@;
        assert(!edge_ids_unique(edges));
    }
    // Edges.
    if first_in(ep, edges.len() as int) is None {
        assert forall|i: int| 0 <= i < edges.len() implies {
            &&& (#[trigger] edges[i]).source@ != edges[i].target@
            &&& has_node(nodes, edges[i].source@)
            &&& has_node(nodes, edges[i].target@)
        } by {
            assert(!ep(i));
        }
    } else {
        let i = first_in(ep, edges.len() as int)->0;
        assert(ep(i));
        assert(edge_problem::<N, E>(member, edges[i]) is Some);
    }
    // Nodes.
    assert forall|i: int| 0 <= i < nodes.len() implies
        (#[trigger] node_problem(member, nodes[i]) is None <==> {
            &&& (nodes[i].parent_id matches Some(p) ==> has_node(nodes, p@))
            &&& handles_of_type_ok(nodes[i].handles@, HandleType::Source)
            &&& handles_of_type_ok(nodes[i].handles@, HandleType::Target)
        }) by {
        lemma_handle_problem_iff(nodes[i].handles@, HandleType::Source);
        lemma_handle_problem_iff(nodes[i].handles@, HandleType::Target);
    }
    if first_in(np, nodes.len() as int) is None {
        assert forall|i: int| 0 <= i < nodes.len() implies node_problem(member, #[trigger] nodes[i]) is None by {
            assert(!np(i));
        }
    } else {
        let i = first_in(np, nodes.len() as int)->0;
        assert(np(i));
    }
}

/// Handle `k` of `hs` has type `t` and ID `w`.
pub open spec fn typed_with_id(hs: Seq<Handle>, k: int, t: HandleType, w: Seq<char>) -> bool {
    hs[k].handle_type == t && opt_chars(hs[k].id) == Some(w)
}

/// `i` is the first handle of `hs` of type `t` with ID `w`.
pub open spec fn first_typed_with_id(hs: Seq<Handle>, i: int, t: HandleType, w: Seq<char>) -> bool {
    0 <= i < hs.len() && typed_with_id(hs, i, t, w)
        && forall|j: int| 0 <= j < i ==> !#[trigger] typed_with_id(hs, j, t, w)
}

/// Some handle of `hs` has type `t` and ID `w`.
pub open spec fn some_typed_with_id(hs: Seq<Handle>, t: HandleType, w: Seq<char>) -> bool {
    exists|k: int| 0 <= k < hs.len() && #[trigger] typed_with_id(hs, k, t, w)
}

/// Which handle an edge end attaches to, on a node with a handle of the
/// end's type `t`. With an ID: in strict mode the first handle of type `t`
/// carrying it; in loose mode the first source handle carrying it, else the
/// first target handle carrying it. Where no such handle carries it, or
/// there is no ID, the first handle of type `t`.
pub proof fn lemma_get_handle_choice(hs: Seq<Handle>, id: Option<Seq<char>>, t: HandleType, mode: ConnectionMode)
    requires
        exists|k: int| 0 <= k < hs.len() && (#[trigger] hs[k]).handle_type == t,
    ensures
        get_handle(hs, id, t, mode) matches Some(i) && match id {
            Some(w) => match mode {
                ConnectionMode::Strict => if some_typed_with_id(hs, t, w) {
                    first_typed_with_id(hs, i, t, w)
                } else {
                    first_typed_with_id_or_type(hs, i, t)
                },
                ConnectionMode::Loose => if some_typed_with_id(hs, HandleType::Source, w) {
                    first_typed_with_id(hs, i, HandleType::Source, w)
                } else if some_typed_with_id(hs, HandleType::Target, w) {
                    first_typed_with_id(hs, i, HandleType::Target, w)
                } else {
                    first_typed_with_id_or_type(hs, i, t)
                },
            },
            None => first_typed_with_id_or_type(hs, i, t),
        },
{
    let n = hs.len() as int;
    let k = choose|k: int| 0 <= k < hs.len() && (#[trigger] hs[k]).handle_type == t;
    let fallback = typed_match(hs, t, None);
    lemma_first_in(fallback, n);
    assert(fallback(k));
    let f = first_in(fallback, n)->0;
    assert(first_typed_with_id_or_type(hs, f, t)) by {
        assert forall|j: int| 0 <= j < f implies (#[trigger] hs[j]).handle_type != t by {
            assert(!fallback(j));
        }
    }
    if let Some(w) = id {
        let ps = typed_match(hs, HandleType::Source, id);
        let pt = typed_match(hs, HandleType::Target, id);
        let pm = typed_match(hs, t, id);
        lemma_first_in_typed(hs, HandleType::Source, w);
        lemma_first_in_typed(hs, HandleType::Target, w);
        lemma_first_in_typed(hs, t, w);
        match mode {
            ConnectionMode::Strict => {
                assert(get_handle(hs, id, t, mode) == match first_in(pm, n) {
                    Some(i) => Some(i),
                    None => Some(f),
                });
            },
            ConnectionMode::Loose => {
                assert(get_handle(hs, id, t, mode) == match first_in(ps, n) {
                    Some(i) => Some(i),
                    None => match first_in(pt, n) {
                        Some(i) => Some(i),
                        None => Some(f),
                    },
                });
            },
        }
    }
}

/// The first handle of type `t` with ID `w`, as `first_in` finds it.
proof fn lemma_first_in_typed(hs: Seq<Handle>, t: HandleType, w: Seq<char>)
    ensures
        some_typed_with_id(hs, t, w) <==> first_in(typed_match(hs, t, Some(w)), hs.len() as int) is Some,
        first_in(typed_match(hs, t, Some(w)), hs.len() as int) matches Some(i) ==> first_typed_with_id(hs, i, t, w),
{
    let p = typed_match(hs, t, Some(w));
    lemma_first_in(p, hs.len() as int);
    assert forall|j: int| #[trigger] typed_with_id(hs, j, t, w) == p(j) by {}
    if some_typed_with_id(hs, t, w) {
        let k = choose|k: int| 0 <= k < hs.len() && #[trigger] typed_with_id(hs, k, t, w);
        assert(p(k));
    }
    if let Some(i) = first_in(p, hs.len() as int) {
        assert(p(i));
        assert(typed_with_id(hs, i, t, w));
    }
}

/// `i` is the first handle of `hs` of type `t`.
pub open spec fn first_typed_with_id_or_type(hs: Seq<Handle>, i: int, t: HandleType) -> bool {
    0 <= i < hs.len() && hs[i].handle_type == t
        && forall|j: int| 0 <= j < i ==> (#[trigger] hs[j]).handle_type != t
}

} // verus!
