//! What the flags of nodes and edges guarantee across operations: deleting
//! respects `deletable`, previews only aim at connectable nodes, gestures
//! only select selectable nodes, reconnection follows `Reconnectable`, and
//! each directional action navigates its own way.

use vstd::prelude::*;
use crate::actions::FlowAction;
use crate::state::apply::{ActionStep, ConnectionDrag, ViewWork};
use crate::state::gesture::{pick_node, Gesture, MouseHit, NodeDrag, Press};
use crate::state::graph::{edges_kept_unless_selected_deletable, kept_unless_selected_deletable};
use crate::state::hierarchy::{id_pred, node_by_id};
use crate::state::model::{first_in, has_node, lemma_first_in, node_ids_unique};
use crate::state::retain::{lemma_masked, masked, masked_indices, negated};
use crate::state::selection::Direction;
use crate::state::Flow;
use crate::strs::opt_chars;
use crate::types::edge::allows_spec;
use crate::types::handle::opposite_type;
use crate::types::{Edge, HandleType, Node, Reconnectable};

verus! {

// ---------------------------------------------------------------- deleting

/// Removing `new` from `old` respected `deletable`: every node that was not
/// both selected and deletable is still there, and no node that was both
/// is left.
pub open spec fn deletion_respects_flags<N>(old: Seq<Node<N>>, new: Seq<Node<N>>) -> bool {
    &&& forall|i: int| 0 <= i < old.len() && !((#[trigger] old[i]).selected && old[i].deletable)
        ==> new.contains(old[i])
    &&& forall|i: int| 0 <= i < old.len() && (#[trigger] old[i]).selected && old[i].deletable
        ==> !has_node(new, old[i].id@)
}

/// Each kept position's element is among the kept elements.
proof fn lemma_masked_members<T>(s: Seq<T>, m: Seq<bool>)
    requires
        s.len() == m.len(),
    ensures
        forall|i: int| 0 <= i < s.len() && m[i] ==> #[trigger] masked(s, m).contains(s[i]),
{
    lemma_masked(s, m);
    let ks = masked(s, m);
    let ix = masked_indices(s.len(), m);
    assert forall|i: int| 0 <= i < s.len() && m[i] implies #[trigger] ks.contains(s[i]) by {
        assert(m[i]);
        let k = choose|k: int| 0 <= k < ks.len() && ix[k] == i;
        assert(ks[k] == s[i]);
    }
}

/// Removing the selected deletable nodes keeps every node that is not both
/// selected and deletable, removes every node that is, and removes only
/// such nodes: each removed node was selected and deletable.
pub proof fn lemma_selected_deletion_respects_deletable<N>(nodes: Seq<Node<N>>)
    requires
        node_ids_unique(nodes),
    ensures
        deletion_respects_flags(nodes, masked(nodes, kept_unless_selected_deletable(nodes))),
        forall|k: int| 0 <= k < masked(nodes, negated(kept_unless_selected_deletable(nodes))).len() ==> {
            &&& (#[trigger] masked(nodes, negated(kept_unless_selected_deletable(nodes)))[k]).selected
            &&& masked(nodes, negated(kept_unless_selected_deletable(nodes)))[k].deletable
            &&& nodes.contains(masked(nodes, negated(kept_unless_selected_deletable(nodes)))[k])
        },
{
    let keep = kept_unless_selected_deletable(nodes);
    let kept = masked(nodes, keep);
    let gone = masked(nodes, negated(keep));
    lemma_masked_members(nodes, keep);
    lemma_masked_members(nodes, negated(keep));
    assert forall|i: int| 0 <= i < nodes.len() && !((#[trigger] nodes[i]).selected && nodes[i].deletable)
        implies kept.contains(nodes[i]) by {
        assert(keep[i]);
    }
    assert forall|i: int| 0 <= i < nodes.len() && (#[trigger] nodes[i]).selected && nodes[i].deletable
        implies !has_node(kept, nodes[i].id@) by {
        if has_node(kept, nodes[i].id@) {
            let k = choose|k: int| 0 <= k < kept.len() && #[trigger] kept[k].id@ == nodes[i].id@;
            lemma_masked(nodes, keep);
            let j = masked_indices(nodes.len(), keep)[k];
            assert(keep[j]);
            assert(kept[k] == nodes[j]);
            assert(nodes[j].id@ == nodes[i].id@);
            assert(j == i);
        }
    }
    assert forall|k: int| 0 <= k < gone.len() implies {
        &&& (#[trigger] gone[k]).selected
        &&& gone[k].deletable
        &&& nodes.contains(gone[k])
    } by {
        lemma_masked(nodes, negated(keep));
        let j = masked_indices(nodes.len(), negated(keep))[k];
        assert(negated(keep)[j]);
        assert(gone[k] == nodes[j]);
        assert(!keep[j]);
        assert(nodes.contains(nodes[j]));
    }
}

/// Removing the selected deletable edges keeps every edge that is not both
/// selected and deletable, and each removed edge was selected and deletable.
pub proof fn lemma_selected_edge_deletion_respects_deletable<E>(edges: Seq<Edge<E>>)
    ensures
        forall|i: int| 0 <= i < edges.len() && !((#[trigger] edges[i]).selected && edges[i].deletable)
            ==> masked(edges, edges_kept_unless_selected_deletable(edges)).contains(edges[i]),
        forall|k: int| 0 <= k < masked(edges, negated(edges_kept_unless_selected_deletable(edges))).len() ==> {
            &&& (#[trigger] masked(edges, negated(edges_kept_unless_selected_deletable(edges)))[k]).selected
            &&& masked(edges, negated(edges_kept_unless_selected_deletable(edges)))[k].deletable
        },
{
    let keep = edges_kept_unless_selected_deletable(edges);
    let gone = masked(edges, negated(keep));
    lemma_masked_members(edges, keep);
    assert forall|i: int| 0 <= i < edges.len() && !((#[trigger] edges[i]).selected && edges[i].deletable)
        implies masked(edges, keep).contains(edges[i]) by {
        assert(keep[i]);
    }
    assert forall|k: int| 0 <= k < gone.len() implies {
        &&& (#[trigger] gone[k]).selected
        &&& gone[k].deletable
    } by {
        lemma_masked(edges, negated(keep));
        let j = masked_indices(edges.len(), negated(keep))[k];
        assert(negated(keep)[j]);
        assert(gone[k] == edges[j]);
    }
}

/// Deleting through the Delete action respects `deletable` the same way:
/// whether the flow is locked or not, every node that is not both selected
/// and deletable survives, and every node that is both is gone.
pub proof fn lemma_delete_action_respects_deletable<N, E>(
    old: Flow<N, E>,
    new: Flow<N, E>,
    drag: ConnectionDrag,
    r: ActionStep,
)
    requires
        old.wf(),
        Flow::applied(old, new, FlowAction::Delete, drag, r),
    ensures
        old.is_locked() ==> new.node_seq() == old.node_seq(),
        !old.is_locked() ==> deletion_respects_flags(old.node_seq(), new.node_seq()),
{
    lemma_selected_deletion_respects_deletable(old.node_seq());
}

// ---------------------------------------------------------------- previews

/// The node a preview may aim at: it exists, and every node with that ID
/// is visible and connectable.
pub open spec fn aimable<N>(nodes: Seq<Node<N>>, to: Seq<char>) -> bool {
    &&& has_node(nodes, to)
    &&& forall|i: int| 0 <= i < nodes.len() && (#[trigger] nodes[i]).id@ == to
        ==> !nodes[i].hidden && nodes[i].connectable
}

/// A preview that is aimed successfully (by `preview_to_handle`, or by
/// cycling its target handles) points at a node other than its source that
/// exists, is visible and is connectable.
pub proof fn lemma_aimed_target_is_connectable<N, E, V: Fn(&crate::types::Connection) -> bool>(
    old: Flow<N, E>,
    new: Flow<N, E>,
    to: Seq<char>,
    wanted: Option<Seq<char>>,
    v: V,
    r: bool,
)
    requires
        old.wf(),
        Flow::aimed(old, new, to, wanted, v, r),
        r,
    ensures
        old.preview() matches Some(ep) && ep.from_node_id@ != to,
        aimable(old.node_seq(), to),
        new.node_seq() == old.node_seq(),
        new.preview() matches Some(np) && opt_chars(np.to_node_id) == Some(to),
{
    let ns = old.node_seq();
    let p = id_pred(ns, to);
    lemma_first_in(p, ns.len() as int);
    if let Some(j) = first_in(p, ns.len() as int) {
        assert(p(j));
        assert forall|i: int| 0 <= i < ns.len() && (#[trigger] ns[i]).id@ == to
            implies !ns[i].hidden && ns[i].connectable by {
            if i != j {
                assert(ns[i].id@ != ns[j].id@);
            }
        }
    }
}

// ---------------------------------------------------------------- gestures

/// From `old` to `new` only selection flags changed, and no node whose
/// `selectable` flag is false became selected.
pub open spec fn selection_respects_flags<N>(old: Seq<Node<N>>, new: Seq<Node<N>>) -> bool {
    &&& new.len() == old.len()
    &&& forall|i: int| 0 <= i < old.len() ==> new[i] == (Node { selected: new[i].selected, ..old[i] })
    &&& forall|i: int| 0 <= i < old.len() && !(#[trigger] old[i]).selectable && new[i].selected
        ==> old[i].selected
}

/// Picking a node (selecting it alone, or flipping it) never selects a node
/// that is not selectable.
pub proof fn lemma_pick_respects_selectable<N, E>(ns: Seq<Node<N>>, es: Seq<Edge<E>>, id: Seq<char>, toggle: bool)
    requires
        node_ids_unique(ns),
    ensures
        selection_respects_flags(ns, pick_node(ns, es, id, toggle).0),
{
    let p = id_pred(ns, id);
    lemma_first_in(p, ns.len() as int);
    let n2 = pick_node(ns, es, id, toggle).0;
    if let Some(j) = first_in(p, ns.len() as int) {
        assert(p(j));
        assert(node_by_id(ns, id) == Some(ns[j]));
        assert forall|i: int| 0 <= i < ns.len() && (#[trigger] ns[i]).id@ == id implies i == j by {
            if i != j {
                assert(ns[i].id@ != ns[j].id@);
            }
        }
    }
    assert(n2.len() == ns.len());
    assert forall|i: int| 0 <= i < ns.len() implies n2[i] == (Node { selected: n2[i].selected, ..ns[i] }) by {}
}

/// Clearing the selection never selects anything.
proof fn lemma_deselect_respects_selectable<N>(ns: Seq<Node<N>>)
    ensures
        selection_respects_flags(ns, crate::state::selection::nodes_deselected(ns)),
{
}

/// Leaving the nodes as they are respects every flag.
proof fn lemma_same_respects_selectable<N>(ns: Seq<Node<N>>)
    ensures
        selection_respects_flags(ns, ns),
{
    assert forall|i: int| 0 <= i < ns.len() implies ns[i] == (Node { selected: ns[i].selected, ..ns[i] }) by {}
}

/// A pointer press never selects a node that is not selectable, and changes
/// nothing of the nodes but their selection.
pub proof fn lemma_press_respects_selectable<N, E>(
    old: Flow<N, E>,
    new: Flow<N, E>,
    hit: MouseHit,
    allow_drag: bool,
    multi: bool,
    select_now: bool,
    r: Press,
)
    requires
        old.wf(),
        Flow::pressed(old, new, hit, allow_drag, multi, select_now, r),
    ensures
        selection_respects_flags(old.node_seq(), new.node_seq()),
{
    let (ns, es) = (old.node_seq(), old.edge_seq());
    lemma_pick_respects_selectable(ns, es, hit_node_id(hit), true);
    lemma_pick_respects_selectable(ns, es, hit_node_id(hit), false);
    lemma_deselect_respects_selectable(ns);
    lemma_same_respects_selectable(ns);
    match hit {
        MouseHit::Edge { edge_id } => {
            if !multi {
                let d = crate::state::selection::nodes_deselected(ns);
                assert(new.node_seq() == d);
            }
        },
        _ => {},
    }
}

/// The node a hit names, or the empty ID.
pub open spec fn hit_node_id(hit: MouseHit) -> Seq<char> {
    match hit {
        MouseHit::Handle { node_id, .. } => node_id@,
        MouseHit::Node { node_id } => node_id@,
        _ => Seq::empty(),
    }
}

/// A drag step of a pressed node never selects a node that is not
/// selectable.
pub proof fn lemma_drag_respects_selectable<N, E>(
    old: Flow<N, E>,
    new: Flow<N, E>,
    id: Seq<char>,
    drag_started: bool,
    selected: bool,
    exceeded: bool,
    r: NodeDrag,
)
    requires
        old.wf(),
        Flow::dragged(old, new, id, drag_started, selected, exceeded, r),
    ensures
        selection_respects_flags(old.node_seq(), new.node_seq()),
{
    lemma_pick_respects_selectable(old.node_seq(), old.edge_seq(), id, false);
    lemma_deselect_respects_selectable(old.node_seq());
    lemma_same_respects_selectable(old.node_seq());
}

/// A release ending a gesture never selects a node that is not selectable.
pub proof fn lemma_release_respects_selectable<N, E>(old: Flow<N, E>, new: Flow<N, E>, g: Gesture, r: crate::events::EventResponse)
    requires
        old.wf(),
        Flow::released(old, new, g, r),
    ensures
        selection_respects_flags(old.node_seq(), new.node_seq()),
{
    lemma_same_respects_selectable(old.node_seq());
    if let Gesture::MovingNode { node_id, .. } = g {
        lemma_pick_respects_selectable(old.node_seq(), old.edge_seq(), node_id@, false);
    }
}

// ---------------------------------------------------------------- reconnecting

/// What each `Reconnectable` setting allows: `Inherit` follows the
/// graph-wide default, `Both` allows either end, `Source` only the source
/// end, `Target` only the target end, `Disabled` neither.
pub proof fn lemma_reconnectable_ends(t: HandleType, global_default: bool)
    ensures
        allows_spec(Reconnectable::Inherit, t, global_default) == global_default,
        allows_spec(Reconnectable::Both, t, global_default),
        allows_spec(Reconnectable::Source, t, global_default) == (t == HandleType::Source),
        allows_spec(Reconnectable::Target, t, global_default) == (t == HandleType::Target),
        !allows_spec(Reconnectable::Disabled, t, global_default),
        allows_spec(Reconnectable::Source, t, global_default)
            == allows_spec(Reconnectable::Target, opposite_type(t), global_default),
{
}

// ---------------------------------------------------------------- navigating

/// The direction a directional select action navigates in, if it is one.
pub open spec fn action_direction(action: FlowAction) -> Option<Direction> {
    match action {
        FlowAction::SelectUp => Some(Direction::Up),
        FlowAction::SelectDown => Some(Direction::Down),
        FlowAction::SelectLeft => Some(Direction::Left),
        FlowAction::SelectRight => Some(Direction::Right),
        _ => None,
    }
}

/// Each directional select action on an unlocked flow is handled by
/// navigating in its own direction; the graph itself is left to the
/// navigation.
pub proof fn lemma_select_direction_navigates_its_way<N, E>(
    old: Flow<N, E>,
    new: Flow<N, E>,
    action: FlowAction,
    drag: ConnectionDrag,
    r: ActionStep,
)
    requires
        Flow::applied(old, new, action, drag, r),
        !old.is_locked(),
        action_direction(action) is Some,
    ensures
        r.view == ViewWork::Navigate(action_direction(action)->0),
        r.response is Handled,
{
}

} // verus!
