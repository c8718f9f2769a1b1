//! The decisions of the pointer gestures: what a press on a handle, a node,
//! an edge or the pane starts, what dragging a node selects, and what a
//! release reports.
//!
//! Hit testing and moving things on the canvas are geometry and happen
//! outside; these functions take what was hit and the gesture in progress.

use vstd::prelude::*;
use crate::events::{reports_selection, EventResponse, FlowEvent};
use crate::state::handles::handles_of_node;
use crate::state::hierarchy::{lemma_found_first, lemma_not_found, node_by_id};
use crate::state::lookup::{find_edge, find_node};
use crate::state::model::{first_in, has_edge, has_node, lemma_first_in};
use crate::state::preview::{can_begin, completable, is_preview_connection, EdgePreview};
use crate::state::selection::{selected_edge_ids, selected_node_ids};
use crate::state::Flow;
use crate::strs::{copy_opt, copy_string, opt_chars, opt_is, opt_str_chars, string_is};
use crate::types::edge::allows_spec;
use crate::types::handle::opposite_type;
use crate::types::{Connection, ConnectionMode, Edge, Handle, HandleType, Node};

verus! {

/// What a pointer press landed on.
#[derive(Debug)]
pub enum MouseHit {
    /// A handle of a node.
    Handle {
        /// The node's ID.
        node_id: String,
        /// The handle's ID; `None` is the node's only handle of its type.
        handle_id: Option<String>,
        /// The handle's type.
        handle_type: HandleType,
    },
    /// The body of a node.
    Node {
        /// The node's ID.
        node_id: String,
    },
    /// An edge.
    Edge {
        /// The edge's ID.
        edge_id: String,
    },
    /// Empty canvas.
    Nothing,
}

/// What sits at a point on the canvas, borrowing the IDs from the graph.
#[derive(Debug, Clone, Copy, PartialEq, Eq)]
pub enum Pick<'a> {
    /// A handle on a node.
    Handle {
        /// The node the handle belongs to.
        node_id: &'a str,
        /// The handle's ID, or `None` when it is the node's only one of its type.
        handle_id: Option<&'a str>,
        /// Whether it is a source or target handle.
        handle_type: HandleType,
    },
    /// A node body.
    Node {
        /// The node's ID.
        node_id: &'a str,
    },
    /// An edge.
    Edge {
        /// The edge's ID.
        edge_id: &'a str,
    },
    /// Empty canvas.
    Nothing,
}

/// The left-button gesture in progress, as far as the graph is concerned.
#[derive(Debug)]
pub enum Gesture {
    /// No gesture.
    Idle,
    /// A node was pressed; a release reports the click.
    AwaitingNodeClick {
        /// The pressed node.
        node_id: String,
    },
    /// A new connection is being dragged; its state is the edge preview.
    CreatingConnection,
    /// A node is pressed for moving.
    MovingNode {
        /// The node being moved.
        node_id: String,
        /// Whether the drag threshold was exceeded.
        drag_started: bool,
        /// Whether the node was selected by this gesture already.
        selected: bool,
    },
    /// An end of an edge is being dragged to another handle.
    ReconnectingEdge {
        /// The edge being reconnected.
        edge_id: String,
    },
    /// The viewport is being panned.
    Panning,
}

/// The edge has the given node and handle at its `t` end.
pub open spec fn at_endpoint<E>(e: Edge<E>, node: Seq<char>, hid: Option<Seq<char>>, t: HandleType) -> bool {
    match t {
        HandleType::Source => e.source@ == node && opt_chars(e.source_handle) == hid,
        HandleType::Target => e.target@ == node && opt_chars(e.target_handle) == hid,
    }
}

/// The predicate "edge `i` is selected, may be reconnected at its `t` end,
/// and has the given node and handle there".
pub open spec fn reconnect_pred<E>(
    edges: Seq<Edge<E>>,
    global: bool,
    node: Seq<char>,
    hid: Option<Seq<char>>,
    t: HandleType,
) -> spec_fn(int) -> bool {
    |i: int| edges[i].selected && allows_spec(edges[i].reconnectable, t, global) && at_endpoint(edges[i], node, hid, t)
}

/// How many indices below `k` satisfy `p`.
pub open spec fn count_in(p: spec_fn(int) -> bool, k: int) -> nat
    decreases k,
{
    if k <= 0 {
        0
    } else {
        count_in(p, k - 1) + if p(k - 1) { 1nat } else { 0nat }
    }
}

/// No index below `k` satisfies `p` when none is counted.
pub proof fn lemma_count_zero(p: spec_fn(int) -> bool, k: int)
    requires
        count_in(p, k) == 0,
    ensures
        first_in(p, k) is None,
    decreases k,
{
    if k > 0 {
        lemma_count_zero(p, k - 1);
    }
}

/// Counting never goes down as the bound grows.
pub proof fn lemma_count_monotone(p: spec_fn(int) -> bool, k: int, m: int)
    requires
        k <= m,
    ensures
        count_in(p, k) <= count_in(p, m),
    decreases m - k,
{
    if k < m {
        lemma_count_monotone(p, k, m - 1);
    }
}

/// The edge a drag from the given handle reconnects, as `(edge, node at the
/// other end, handle at the other end)`: the only selected edge that may be
/// reconnected at that end and has that handle there; `None` when there is
/// no such edge or more than one.
pub open spec fn reconnect_target<E>(
    edges: Seq<Edge<E>>,
    global: bool,
    node: Seq<char>,
    hid: Option<Seq<char>>,
    t: HandleType,
) -> Option<(Seq<char>, Seq<char>, Option<Seq<char>>)> {
    let p = reconnect_pred(edges, global, node, hid, t);
    if count_in(p, edges.len() as int) == 1 {
        match first_in(p, edges.len() as int) {
            Some(i) => Some(match t {
                HandleType::Source => (edges[i].id@, edges[i].target@, opt_chars(edges[i].target_handle)),
                HandleType::Target => (edges[i].id@, edges[i].source@, opt_chars(edges[i].source_handle)),
            }),
            None => None,
        }
    } else {
        None
    }
}

/// The node with that ID exists and can be selected.
pub open spec fn node_selectable<N>(nodes: Seq<Node<N>>, id: Seq<char>) -> bool {
    node_by_id(nodes, id) matches Some(n) && n.selectable
}

/// `ns` with only the nodes with ID `id` selected.
pub open spec fn only_id<N>(ns: Seq<Node<N>>, id: Seq<char>) -> Seq<Node<N>> {
    Seq::new(ns.len(), |i: int| Node { selected: ns[i].id@ == id, ..ns[i] })
}

/// `ns` with the selection of the nodes with ID `id` flipped.
pub open spec fn flip_id<N>(ns: Seq<Node<N>>, id: Seq<char>) -> Seq<Node<N>> {
    Seq::new(ns.len(), |i: int| if ns[i].id@ == id { Node { selected: !ns[i].selected, ..ns[i] } } else { ns[i] })
}

/// The nodes and edges after a press picks node `id`: when it is
/// selectable, it is selected alone, or with `toggle` its selection flips;
/// otherwise nothing changes.
pub open spec fn pick_node<N, E>(ns: Seq<Node<N>>, es: Seq<Edge<E>>, id: Seq<char>, toggle: bool) -> (Seq<Node<N>>, Seq<Edge<E>>) {
    if !node_selectable(ns, id) {
        (ns, es)
    } else if toggle {
        (flip_id(ns, id), es)
    } else {
        (only_id(ns, id), crate::state::selection::edges_deselected(es))
    }
}

impl<N, E> Flow<N, E> {
    /// Finds the only selected edge that a drag from the given handle may
    /// reconnect, with the node and handle at its other end.
    ///
    /// Returns `None` when no selected edge matches, or when several do.
    pub fn find_reconnectable_edge_at(
        &self,
        node_id: &str,
        handle_id: Option<&str>,
        handle_type: HandleType,
    ) -> (r: Option<(String, String, Option<String>)>)
        ensures
            match reconnect_target(self.edge_seq(), self.reconnect_default(), node_id@, opt_str_chars(handle_id), handle_type) {
                Some((eid, other, oh)) => r matches Some((a, b, c)) && a@ == eid && b@ == other && opt_chars(c) == oh,
                None => r is None,
            },
    {
        let ghost p = reconnect_pred(self.edges@, self.edges_reconnectable, node_id@, opt_str_chars(handle_id), handle_type);
        let n = self.edges.len();
        let mut found: Option<usize> = None;
        let mut i: usize = 0;
        while i < n
            invariant
                n == self.edges@.len(),
                i <= n,
                p == reconnect_pred(self.edges@, self.edges_reconnectable, node_id@, opt_str_chars(handle_id), handle_type),
                match found {
                    None => count_in(p, i as int) == 0,
                    Some(j) => count_in(p, i as int) == 1 && j < i && first_in(p, i as int) == Some(j as int),
                },
            decreases n - i,
        {
            let e = &self.edges[i];
            let at = match handle_type {
                HandleType::Source => string_is(&e.source, node_id) && opt_is(&e.source_handle, handle_id),
                HandleType::Target => string_is(&e.target, node_id) && opt_is(&e.target_handle, handle_id),
            };
            if e.selected && e.reconnectable.allows(handle_type, self.edges_reconnectable) && at {
                assert(p(i as int));
                match found {
                    Some(_) => {
                        assert(count_in(p, i + 1) == 2);
                        proof { lemma_count_monotone(p, i + 1, n as int); }
                        return None;
                    },
                    None => {
                        proof { lemma_count_zero(p, i as int); }
                        assert(first_in(p, i + 1) == Some(i as int));
                        found = Some(i);
                    },
                }
            } else {
                assert(!p(i as int));
                match found {
                    Some(j) => {
                        assert(first_in(p, i + 1) == Some(j as int));
                    },
                    None => {},
                }
            }
            i = i + 1;
        }
        match found {
            None => {
                proof { lemma_count_zero(p, n as int); }
                None
            },
            Some(j) => {
                let e = &self.edges[j];
                match handle_type {
                    HandleType::Source => Some((copy_string(&e.id), copy_string(&e.target), copy_opt(&e.target_handle))),
                    HandleType::Target => Some((copy_string(&e.id), copy_string(&e.source), copy_opt(&e.source_handle))),
                }
            },
        }
    }

    /// Whether the node with that ID exists and can be selected.
    pub fn is_node_selectable(&self, id: &str) -> (r: bool)
        ensures
            r == node_selectable(self.node_seq(), id@),
    {
        match find_node(&self.nodes, id) {
            Some(i) => {
                proof { lemma_found_first(self.nodes@, id@, i as int); }
                self.nodes[i].selectable
            },
            None => {
                proof { lemma_not_found(self.nodes@, id@); }
                false
            },
        }
    }

    /// Whether a connection may start from the given handle, as
    /// [`can_begin`] says.
    pub fn can_begin_connection(&self, node_id: &str, handle_id: Option<&str>, handle_type: HandleType) -> (r: bool)
        ensures
            r == can_begin(self.node_seq(), node_id@, opt_str_chars(handle_id), handle_type),
    {
        let i = match find_node(&self.nodes, node_id) {
            Some(i) => i,
            None => {
                proof { lemma_not_found(self.nodes@, node_id@); }
                return false;
            },
        };
        proof { lemma_found_first(self.nodes@, node_id@, i as int); }
        let n = &self.nodes[i];
        n.connectable && match handles_of_node(n) {
            Some(d) => crate::state::preview::begin_allowed(&d, handle_id, handle_type),
            None => crate::state::preview::begin_allowed(&n.handles, handle_id, handle_type),
        }
    }

    /// Selects node `id` alone, or with `toggle` flips its selection, if it
    /// exists and is selectable.
    pub fn pick_node(&mut self, id: &str, toggle: bool)
        requires
            old(self).wf(),
        ensures
            final(self).wf(),
            final(self).same_settings(old(self)),
            (final(self).node_seq(), final(self).edge_seq()) == pick_node(old(self).node_seq(), old(self).edge_seq(), id@, toggle),
    {
        let ghost ns = self.nodes@;
        if self.is_node_selectable(id) {
            if toggle {
                self.toggle_node_selection(id);
                assert(self.nodes@ =~= flip_id(ns, id@));
            } else {
                self.select_node(id);
                assert(self.nodes@ =~= only_id(ns, id@));
            }
        }
    }

}

impl<N, E> Flow<N, E> {
    /// The configuration and the selection snapshot of `self` and `o` agree.
    pub open spec fn keeps_config(&self, o: &Self) -> bool {
        &&& self.same_config(o)
        &&& self.snapshot_node_ids() == o.snapshot_node_ids()
        &&& self.snapshot_edge_ids() == o.snapshot_edge_ids()
    }

    /// `new` has the nodes and edges of `old` after picking node `id`.
    pub open spec fn picked(old: Self, new: Self, id: Seq<char>, toggle: bool) -> bool {
        (new.node_seq(), new.edge_seq()) == pick_node(old.node_seq(), old.edge_seq(), id, toggle)
    }

    /// The preview is a fresh one from the given handle, without a target.
    pub open spec fn fresh_preview(p: Option<EdgePreview>, node: Seq<char>, hid: Option<Seq<char>>, t: HandleType) -> bool {
        p matches Some(ep) && ep.from_node_id@ == node && opt_chars(ep.from_handle_id) == hid
            && ep.from_handle_type == t && ep.to_node_id is None && ep.to_handle_id is None && ep.is_valid is None
    }

    /// The effect of a press on a handle that starts no reconnection: a
    /// source handle (or any handle in loose mode) that can start a
    /// connection selects its node and starts a preview; otherwise the press
    /// picks the node (flipping it with `multi`) and awaits the click.
    pub open spec fn pressed_handle(
        old: Self,
        new: Self,
        node: Seq<char>,
        hid: Option<Seq<char>>,
        t: HandleType,
        multi: bool,
        events: Seq<FlowEvent>,
        g: Gesture,
    ) -> bool {
        let can = (t == HandleType::Source || old.mode() == ConnectionMode::Loose) && can_begin(old.node_seq(), node, hid, t);
        &&& new.wf()
        &&& new.keeps_config(&old)
        &&& if can {
            &&& Self::picked(old, new, node, false)
            &&& Self::fresh_preview(new.preview(), node, hid, t)
            &&& g is CreatingConnection
            &&& events.len() == 1
            &&& events[0] matches FlowEvent::ConnectionStarted { node_id, handle_id }
            &&& node_id@ == node
            &&& opt_chars(handle_id) == hid
        } else {
            &&& Self::picked(old, new, node, multi)
            &&& new.preview() == old.preview()
            &&& g matches Gesture::AwaitingNodeClick { node_id }
            &&& node_id@ == node
            &&& events.len() == 0
        }
    }

    /// The effect of a press on a handle that starts a reconnection: the
    /// node is picked, a preview starts from the edge's other end, and the
    /// reconnection is reported.
    pub open spec fn reconnected(
        old: Self,
        new: Self,
        node: Seq<char>,
        hid: Option<Seq<char>>,
        t: HandleType,
        events: Seq<FlowEvent>,
        g: Gesture,
    ) -> bool {
        match reconnect_target(old.edge_seq(), old.reconnect_default(), node, hid, t) {
            None => false,
            Some((eid, other, oh)) => {
                &&& new.wf()
                &&& new.keeps_config(&old)
                &&& Self::picked(old, new, node, false)
                &&& Self::fresh_preview(new.preview(), other, oh, opposite_type(t))
                &&& g matches Gesture::ReconnectingEdge { edge_id }
                &&& edge_id@ == eid
                &&& events.len() == 1
                &&& events[0] matches FlowEvent::ReconnectionStarted { edge_id: e, handle_type }
                &&& e@ == eid
                &&& handle_type == t
            },
        }
    }

    /// Handles a press on a handle that starts no reconnection (see
    /// [`Flow::pressed_handle`]).
    pub fn begin_connection(
        &mut self,
        node_id: &str,
        handle_id: Option<&str>,
        handle_type: HandleType,
        multi_select: bool,
    ) -> (r: (Vec<FlowEvent>, Gesture))
        requires
            old(self).wf(),
        ensures
            Self::pressed_handle(*old(self), *final(self), node_id@, opt_str_chars(handle_id), handle_type, multi_select, r.0@, r.1),
    {
        let can_connect = handle_type == HandleType::Source || self.connection_mode == ConnectionMode::Loose;
        let mut events: Vec<FlowEvent> = Vec::new();
        if can_connect && self.can_begin_connection(node_id, handle_id, handle_type) {
            self.pick_node(node_id, false);
            self.set_edge_preview_raw(crate::strs::owned(node_id), crate::strs::owned_opt(handle_id), handle_type);
            events.push(FlowEvent::ConnectionStarted {
                node_id: crate::strs::owned(node_id),
                handle_id: crate::strs::owned_opt(handle_id),
            });
            (events, Gesture::CreatingConnection)
        } else {
            self.pick_node(node_id, multi_select);
            (events, Gesture::AwaitingNodeClick { node_id: crate::strs::owned(node_id) })
        }
    }

    /// Handles a press on a handle as the start of a reconnection, if a
    /// single selected edge may be reconnected there (see
    /// [`Flow::reconnected`]).
    pub fn begin_reconnection(
        &mut self,
        node_id: &str,
        handle_id: Option<&str>,
        handle_type: HandleType,
    ) -> (r: Option<(Vec<FlowEvent>, Gesture)>)
        requires
            old(self).wf(),
        ensures
            match reconnect_target(old(self).edge_seq(), old(self).reconnect_default(), node_id@, opt_str_chars(handle_id), handle_type) {
                None => r is None && *final(self) == *old(self),
                Some(_) => r matches Some((events, g))
                    && Self::reconnected(*old(self), *final(self), node_id@, opt_str_chars(handle_id), handle_type, events@, g),
            },
    {
        match self.find_reconnectable_edge_at(node_id, handle_id, handle_type) {
            None => None,
            Some((edge_id, other, other_handle)) => {
                self.pick_node(node_id, false);
                self.set_edge_preview_raw(other, other_handle, handle_type.opposite());
                let mut events: Vec<FlowEvent> = Vec::new();
                events.push(FlowEvent::ReconnectionStarted { edge_id: copy_string(&edge_id), handle_type });
                Some((events, Gesture::ReconnectingEdge { edge_id }))
            },
        }
    }
}

/// What a left press does, apart from the flow it changes.
#[derive(Debug)]
pub struct Press {
    /// The events, in order; a pane click is reported before them.
    pub events: Vec<FlowEvent>,
    /// Whether the empty pane was clicked.
    pub pane_clicked: bool,
    /// The gesture that starts, or `None` to keep the current one.
    pub gesture: Option<Gesture>,
}

impl<N, E> Flow<N, E> {
    /// The number of events a press on a handle that starts no
    /// reconnection reports.
    pub open spec fn handle_press_events(old: Self, node: Seq<char>, hid: Option<Seq<char>>, t: HandleType) -> int {
        if (t == HandleType::Source || old.mode() == ConnectionMode::Loose) && can_begin(old.node_seq(), node, hid, t) {
            1
        } else {
            0
        }
    }

    /// The effect of a press on the body of node `id`: with `multi`, its
    /// selection flips and the click is awaited; with dragging allowed, a
    /// draggable node starts a move (selecting it at once with `select_now`
    /// when selecting on drag and selectable, else clearing the selection
    /// when deselecting on drag and it is not selected), and another node is
    /// picked and its click awaited; without dragging it is picked and its
    /// click awaited.
    pub open spec fn pressed_node(
        old: Self,
        new: Self,
        id: Seq<char>,
        allow_drag: bool,
        multi: bool,
        select_now: bool,
        g: Option<Gesture>,
    ) -> bool {
        &&& new.wf()
        &&& new.keeps_config(&old)
        &&& new.preview() == old.preview()
        &&& if multi {
            Self::picked(old, new, id, true) && (g matches Some(Gesture::AwaitingNodeClick { node_id }) && node_id@ == id)
        } else if allow_drag {
            match node_by_id(old.node_seq(), id) {
                None => g is None && new.node_seq() == old.node_seq() && new.edge_seq() == old.edge_seq(),
                Some(n) => if n.draggable {
                    let sel = select_now && old.selects_on_drag() && n.selectable;
                    &&& if !select_now {
                        new.node_seq() == old.node_seq() && new.edge_seq() == old.edge_seq()
                    } else if old.selects_on_drag() && n.selectable {
                        Self::picked(old, new, id, false)
                    } else if old.deselects_on_drag() && !n.selected {
                        new.node_seq() == crate::state::selection::nodes_deselected(old.node_seq())
                            && new.edge_seq() == crate::state::selection::edges_deselected(old.edge_seq())
                    } else {
                        new.node_seq() == old.node_seq() && new.edge_seq() == old.edge_seq()
                    }
                    &&& g matches Some(Gesture::MovingNode { node_id, drag_started, selected })
                    &&& node_id@ == id
                    &&& !drag_started
                    &&& selected == sel
                } else {
                    Self::picked(old, new, id, false) && (g matches Some(Gesture::AwaitingNodeClick { node_id }) && node_id@ == id)
                },
            }
        } else {
            Self::picked(old, new, id, false) && (g matches Some(Gesture::AwaitingNodeClick { node_id }) && node_id@ == id)
        }
    }

    /// The events after the first `k` of a press: the selection change
    /// against the snapshot, if there is one.
    pub open spec fn selection_tail(new: Self, events: Seq<FlowEvent>, k: int) -> bool {
        if new.snapshot_matches_selection() {
            events.len() == k
        } else {
            events.len() == k + 1
                && reports_selection(events[k], selected_node_ids(new.node_seq()), selected_edge_ids(new.edge_seq()))
        }
    }

    /// The effect of a left press on what was hit (see [`Flow::press`]).
    pub open spec fn pressed(
        old: Self,
        new: Self,
        hit: MouseHit,
        allow_drag: bool,
        multi: bool,
        select_now: bool,
        r: Press,
    ) -> bool {
        match hit {
            MouseHit::Handle { node_id, handle_id, handle_type } => {
                let (node, hid) = (node_id@, opt_chars(handle_id));
                &&& !r.pane_clicked
                &&& r.gesture matches Some(g)
                &&& if reconnect_target(old.edge_seq(), old.reconnect_default(), node, hid, handle_type) is Some {
                    Self::reconnected(old, new, node, hid, handle_type, r.events@.take(1), g)
                        && Self::selection_tail(new, r.events@, 1)
                } else {
                    let k = Self::handle_press_events(old, node, hid, handle_type);
                    Self::pressed_handle(old, new, node, hid, handle_type, multi, r.events@.take(k), g)
                        && Self::selection_tail(new, r.events@, k)
                }
            },
            MouseHit::Node { node_id } => {
                &&& !r.pane_clicked
                &&& Self::pressed_node(old, new, node_id@, allow_drag, multi, select_now, r.gesture)
                &&& Self::selection_tail(new, r.events@, 0)
            },
            MouseHit::Edge { edge_id } => {
                &&& !r.pane_clicked
                &&& r.gesture is None
                &&& new.wf()
                &&& new.keeps_config(&old)
                &&& new.preview() == old.preview()
                &&& if multi {
                    new.node_seq() == old.node_seq() && new.edge_seq() == crate::state::update::edges_with(
                        old.edge_seq(), edge_id@, |e: Edge<E>| Edge { selected: !e.selected, ..e })
                } else {
                    new.node_seq() == crate::state::selection::nodes_deselected(old.node_seq())
                        && new.edge_seq() == crate::state::selection::edges_selected_where(old.edge_seq(),
                            |i: int| old.edge_seq()[i].id@ == edge_id@)
                }
                &&& r.events@.len() >= 1
                &&& (r.events@[0] matches FlowEvent::EdgeClicked { edge_id: e } && e@ == edge_id@)
                &&& Self::selection_tail(new, r.events@, 1)
            },
            MouseHit::Nothing => {
                &&& r.pane_clicked
                &&& r.gesture matches Some(Gesture::Panning)
                &&& new.wf()
                &&& new.keeps_config(&old)
                &&& new.preview() == old.preview()
                &&& if old.deselects_on_pane_click() {
                    new.node_seq() == crate::state::selection::nodes_deselected(old.node_seq())
                        && new.edge_seq() == crate::state::selection::edges_deselected(old.edge_seq())
                } else {
                    new.node_seq() == old.node_seq() && new.edge_seq() == old.edge_seq()
                }
                &&& Self::selection_tail(new, r.events@, 0)
            },
        }
    }

    /// Handles a left press on the body of a node (see [`Flow::pressed_node`]).
    pub fn press_node(&mut self, node_id: &str, allow_node_drag: bool, multi_select: bool, select_now: bool) -> (g: Option<Gesture>)
        requires
            old(self).wf(),
        ensures
            Self::pressed_node(*old(self), *final(self), node_id@, allow_node_drag, multi_select, select_now, g),
    {
        if multi_select {
            self.pick_node(node_id, true);
            return Some(Gesture::AwaitingNodeClick { node_id: crate::strs::owned(node_id) });
        }
        if !allow_node_drag {
            self.pick_node(node_id, false);
            return Some(Gesture::AwaitingNodeClick { node_id: crate::strs::owned(node_id) });
        }
        let i = match find_node(&self.nodes, node_id) {
            Some(i) => i,
            None => {
                proof { lemma_not_found(self.nodes@, node_id@); }
                return None;
            },
        };
        proof { lemma_found_first(self.nodes@, node_id@, i as int); }
        if self.nodes[i].draggable {
            let selectable = self.nodes[i].selectable;
            let node_selected = self.nodes[i].selected;
            let selected = if select_now {
                if self.select_nodes_on_drag && selectable {
                    self.pick_node(node_id, false);
                    true
                } else {
                    if self.deselect_on_drag && !node_selected {
                        self.clear_selection();
                    }
                    false
                }
            } else {
                false
            };
            Some(Gesture::MovingNode { node_id: crate::strs::owned(node_id), drag_started: false, selected })
        } else {
            self.pick_node(node_id, false);
            Some(Gesture::AwaitingNodeClick { node_id: crate::strs::owned(node_id) })
        }
    }

    /// Handles a left press on what was hit: a handle starts a reconnection
    /// or a connection, or picks its node; a node body starts a move or
    /// awaits its click; an edge is selected (with `multi_select`, flipped)
    /// and reported; the empty pane clears the selection when so configured
    /// and starts panning. The selection change against the snapshot is
    /// reported last.
    ///
    /// `select_now` says that a drag starts at once (no drag threshold), so
    /// that a moved node is selected on the press.
    pub fn press(&mut self, hit: MouseHit, allow_node_drag: bool, multi_select: bool, select_now: bool) -> (r: Press)
        requires
            old(self).wf(),
        ensures
            final(self).wf(),
            Self::pressed(*old(self), *final(self), hit, allow_node_drag, multi_select, select_now, r),
    {
        let (mut events, pane_clicked, gesture, lead): (Vec<FlowEvent>, bool, Option<Gesture>, usize) = match hit {
            MouseHit::Handle { node_id, handle_id, handle_type } => {
                let hid = match &handle_id {
                    Some(h) => Some(h.as_str()),
                    None => None,
                };
                match self.begin_reconnection(node_id.as_str(), hid, handle_type) {
                    Some((ev, g)) => (ev, false, Some(g), 1),
                    None => {
                        let (ev, g) = self.begin_connection(node_id.as_str(), hid, handle_type, multi_select);
                        let k = ev.len();
                        (ev, false, Some(g), k)
                    },
                }
            },
            MouseHit::Node { node_id } => {
                let g = self.press_node(node_id.as_str(), allow_node_drag, multi_select, select_now);
                (Vec::new(), false, g, 0)
            },
            MouseHit::Edge { edge_id } => {
                if multi_select {
                    self.toggle_edge_selection(edge_id.as_str());
                } else {
                    self.select_edge(edge_id.as_str());
                }
                let mut ev: Vec<FlowEvent> = Vec::new();
                ev.push(FlowEvent::EdgeClicked { edge_id });
                (ev, false, None, 1)
            },
            MouseHit::Nothing => {
                if self.deselect_on_pane_click {
                    self.clear_selection();
                }
                (Vec::new(), true, Some(Gesture::Panning), 0)
            },
        };
        let ghost lead_events = events@;
        match self.maybe_selection_changed_event() {
            Some(sel) => events.push(sel),
            None => {},
        }
        assert(events@.take(lead as int) =~= lead_events);
        Press { events, pane_clicked, gesture }
    }
}

/// The predicate "edge `i` has ID `id`".
pub open spec fn edge_id_pred<E>(edges: Seq<Edge<E>>, id: Seq<char>) -> spec_fn(int) -> bool {
    |i: int| edges[i].id@ == id
}

/// The first edge with ID `id`, if any.
pub open spec fn edge_by_id<E>(edges: Seq<Edge<E>>, id: Seq<char>) -> Option<Edge<E>> {
    match first_in(edge_id_pred(edges, id), edges.len() as int) {
        Some(i) => Some(edges[i]),
        None => None,
    }
}

/// The index of the first edge with ID `id`, as [`edge_by_id`] says.
fn edge_index(edges: &Vec<Edge<impl Sized>>, id: &str) -> (r: Option<usize>)
    ensures
        match r {
            Some(i) => i < edges@.len() && edge_by_id(edges@, id@) == Some(edges@[i as int]),
            None => edge_by_id(edges@, id@) is None,
        },
{
    let r = find_edge(edges, id);
    let ghost p = edge_id_pred(edges@, id@);
    proof { lemma_first_in(p, edges@.len() as int); }
    proof {
        match r {
            Some(i) => {
                assert(p(i as int));
                if let Some(j) = first_in(p, edges@.len() as int) {
                    if j < i {
                        assert(edges@[j].id@ != id@);
                    }
                    if (i as int) < j {
                        assert(!p(i as int));
                    }
                }
            },
            None => {
                if let Some(j) = first_in(p, edges@.len() as int) {
                    assert(p(j));
                }
            },
        }
    }
    r
}

/// The outcome of a drag step of a pressed node.
#[derive(Debug)]
pub struct NodeDrag {
    /// The response.
    pub response: EventResponse,
    /// Whether the node follows the pointer.
    pub moved: bool,
    /// Whether the drag threshold has been exceeded.
    pub drag_started: bool,
    /// Whether the node has been selected by the gesture.
    pub selected: bool,
}

impl<N, E> Flow<N, E> {
    /// The effect of a drag step of the pressed node `id` (see
    /// [`Flow::drag_node`]).
    pub open spec fn dragged(
        old: Self,
        new: Self,
        id: Seq<char>,
        drag_started: bool,
        selected: bool,
        exceeded: bool,
        r: NodeDrag,
    ) -> bool {
        &&& new.wf()
        &&& new.keeps_config(&old)
        &&& new.preview() == old.preview()
        &&& if !drag_started && !exceeded {
            &&& r.response is Handled
            &&& !r.moved
            &&& r.drag_started == drag_started
            &&& r.selected == selected
            &&& new.node_seq() == old.node_seq()
            &&& new.edge_seq() == old.edge_seq()
        } else {
            let just = !drag_started && exceeded;
            &&& r.moved
            &&& r.drag_started
            &&& if just && !selected {
                if old.selects_on_drag() && node_selectable(old.node_seq(), id) {
                    Self::picked(old, new, id, false) && r.selected
                } else if old.deselects_on_drag() && !(node_by_id(old.node_seq(), id) matches Some(n) && n.selected) {
                    new.node_seq() == crate::state::selection::nodes_deselected(old.node_seq())
                        && new.edge_seq() == crate::state::selection::edges_deselected(old.edge_seq())
                        && r.selected == selected
                } else {
                    new.node_seq() == old.node_seq() && new.edge_seq() == old.edge_seq() && r.selected == selected
                }
            } else {
                new.node_seq() == old.node_seq() && new.edge_seq() == old.edge_seq() && r.selected == selected
            }
            &&& r.response matches EventResponse::Event(v)
            &&& v@.len() >= 1
            &&& if just {
                v@[0] matches FlowEvent::NodeDragStarted { node_id } && node_id@ == id
            } else {
                v@[0] matches FlowEvent::NodeDragged { node_id } && node_id@ == id
            }
            &&& Self::selection_tail(new, v@, 1)
        }
    }

    /// A drag step of the pressed node `id`: nothing happens while the drag
    /// threshold was never exceeded; once it is, the node follows the pointer.
    /// On the step that first exceeds it, a node not selected yet is selected
    /// when selecting on drag and selectable, or else the selection is cleared
    /// when deselecting on drag and the node is not selected. The step reports
    /// the drag start or the drag, then the selection change.
    pub fn drag_node(&mut self, node_id: &str, drag_started: bool, selected: bool, threshold_exceeded: bool) -> (r: NodeDrag)
        requires
            old(self).wf(),
        ensures
            Self::dragged(*old(self), *final(self), node_id@, drag_started, selected, threshold_exceeded, r),
    {
        if !drag_started && !threshold_exceeded {
            return NodeDrag { response: EventResponse::Handled, moved: false, drag_started, selected };
        }
        let just_started = !drag_started && threshold_exceeded;
        let mut now_selected = selected;
        if just_started && !selected {
            if self.select_nodes_on_drag && self.is_node_selectable(node_id) {
                self.pick_node(node_id, false);
                now_selected = true;
            } else if self.deselect_on_drag {
                let node_selected = match find_node(&self.nodes, node_id) {
                    Some(i) => {
                        proof { lemma_found_first(self.nodes@, node_id@, i as int); }
                        self.nodes[i].selected
                    },
                    None => {
                        proof { lemma_not_found(self.nodes@, node_id@); }
                        false
                    },
                };
                if !node_selected {
                    self.clear_selection();
                }
            }
        }
        let mut events: Vec<FlowEvent> = Vec::new();
        if just_started {
            events.push(FlowEvent::NodeDragStarted { node_id: crate::strs::owned(node_id) });
        } else {
            events.push(FlowEvent::NodeDragged { node_id: crate::strs::owned(node_id) });
        }
        match self.maybe_selection_changed_event() {
            Some(sel) => events.push(sel),
            None => {},
        }
        NodeDrag { response: EventResponse::Event(events), moved: true, drag_started: true, selected: now_selected }
    }

    /// The effect of a left release ending the gesture `g` (see
    /// [`Flow::release`]).
    pub open spec fn released(old: Self, new: Self, g: Gesture, r: EventResponse) -> bool {
        &&& new.wf()
        &&& new.keeps_config(&old)
        &&& match g {
            Gesture::AwaitingNodeClick { node_id } => {
                &&& new.same_state(&old)
                &&& r matches EventResponse::Event(v)
                &&& v@.len() == 1
                &&& v@[0] matches FlowEvent::NodeClicked { node_id: n }
                &&& n@ == node_id@
            },
            Gesture::CreatingConnection => {
                &&& new.node_seq() == old.node_seq()
                &&& new.edge_seq() == old.edge_seq()
                &&& new.preview() is None
                &&& r matches EventResponse::Event(v)
                &&& v@.len() == 1
                &&& if completable(old.preview()) {
                    v@[0] matches FlowEvent::ConnectionCompleted(c) && is_preview_connection(c, old.preview()->0)
                } else {
                    v@[0] is ConnectionCancelled
                }
            },
            Gesture::ReconnectingEdge { edge_id } => {
                &&& new.node_seq() == old.node_seq()
                &&& new.edge_seq() == old.edge_seq()
                &&& new.preview() is None
                &&& r matches EventResponse::Event(v)
                &&& v@.len() == 1
                &&& if completable(old.preview()) && edge_by_id(old.edge_seq(), edge_id@) is Some {
                    let e = edge_by_id(old.edge_seq(), edge_id@)->0;
                    &&& v@[0] matches FlowEvent::ReconnectionCompleted { edge_id: id, old_connection, new_connection }
                    &&& id@ == edge_id@
                    &&& crate::state::preview::conn_is(old_connection, e.source@, opt_chars(e.source_handle),
                        e.target@, opt_chars(e.target_handle))
                    &&& is_preview_connection(new_connection, old.preview()->0)
                } else {
                    v@[0] matches FlowEvent::ReconnectionCancelled { edge_id: id } && id@ == edge_id@
                }
            },
            Gesture::MovingNode { node_id, drag_started, selected } => {
                &&& new.preview() == old.preview()
                &&& if drag_started {
                    &&& new.same_state(&old)
                    &&& r matches EventResponse::Event(v)
                    &&& v@.len() == 1
                    &&& v@[0] matches FlowEvent::NodeDragEnded { node_id: n }
                    &&& n@ == node_id@
                } else {
                    &&& if selected {
                        new.node_seq() == old.node_seq() && new.edge_seq() == old.edge_seq()
                    } else {
                        Self::picked(old, new, node_id@, false)
                    }
                    &&& r matches EventResponse::Event(v)
                    &&& v@.len() >= 1
                    &&& v@[0] matches FlowEvent::NodeClicked { node_id: n }
                    &&& n@ == node_id@
                    &&& Self::selection_tail(new, v@, 1)
                }
            },
            Gesture::Panning | Gesture::Idle => new.same_state(&old) && r is Handled,
        }
    }

    /// Handles a left release ending the gesture `g`: a pressed node
    /// reports its click; a connection drag takes the preview and reports
    /// its connection if it was valid, or the cancellation; a reconnection
    /// does the same, with the edge's connection before (cancelled if the
    /// edge is gone); a node move reports its end, or, if the threshold was
    /// never exceeded, selects the node if the press did not and reports the
    /// click and the selection change.
    pub fn release(&mut self, g: Gesture) -> (r: EventResponse)
        requires
            old(self).wf(),
        ensures
            Self::released(*old(self), *final(self), g, r),
    {
        let mut v: Vec<FlowEvent> = Vec::new();
        match g {
            Gesture::AwaitingNodeClick { node_id } => {
                v.push(FlowEvent::NodeClicked { node_id });
                EventResponse::Event(v)
            },
            Gesture::CreatingConnection => {
                match self.take_edge_preview_connection() {
                    Some(c) => v.push(FlowEvent::ConnectionCompleted(c)),
                    None => v.push(FlowEvent::ConnectionCancelled),
                }
                EventResponse::Event(v)
            },
            Gesture::ReconnectingEdge { edge_id } => {
                match self.take_edge_preview_connection() {
                    Some(new_connection) => match edge_index(&self.edges, edge_id.as_str()) {
                        Some(i) => {
                            let e = &self.edges[i];
                            let old_connection = Connection {
                                source: copy_string(&e.source),
                                source_handle: copy_opt(&e.source_handle),
                                target: copy_string(&e.target),
                                target_handle: copy_opt(&e.target_handle),
                            };
                            v.push(FlowEvent::ReconnectionCompleted { edge_id, old_connection, new_connection });
                        },
                        None => v.push(FlowEvent::ReconnectionCancelled { edge_id }),
                    },
                    None => v.push(FlowEvent::ReconnectionCancelled { edge_id }),
                }
                EventResponse::Event(v)
            },
            Gesture::MovingNode { node_id, drag_started, selected } => {
                if drag_started {
                    v.push(FlowEvent::NodeDragEnded { node_id });
                    EventResponse::Event(v)
                } else {
                    if !selected {
                        self.pick_node(node_id.as_str(), false);
                    }
                    v.push(FlowEvent::NodeClicked { node_id });
                    match self.maybe_selection_changed_event() {
                        Some(sel) => v.push(sel),
                        None => {},
                    }
                    EventResponse::Event(v)
                }
            },
            Gesture::Panning | Gesture::Idle => EventResponse::Handled,
        }
    }

    /// The context menu event of a right press on what was hit: the node's
    /// for a handle or a node, the edge's for an edge, `None` for the pane.
    pub fn context_menu_event(hit: MouseHit) -> (r: Option<FlowEvent>)
        ensures
            match hit {
                MouseHit::Handle { node_id, .. } => r matches Some(FlowEvent::NodeContextMenu { node_id: n }) && n == node_id,
                MouseHit::Node { node_id } => r matches Some(FlowEvent::NodeContextMenu { node_id: n }) && n == node_id,
                MouseHit::Edge { edge_id } => r matches Some(FlowEvent::EdgeContextMenu { edge_id: e }) && e == edge_id,
                MouseHit::Nothing => r is None,
            },
    {
        match hit {
            MouseHit::Handle { node_id, .. } => Some(FlowEvent::NodeContextMenu { node_id }),
            MouseHit::Node { node_id } => Some(FlowEvent::NodeContextMenu { node_id }),
            MouseHit::Edge { edge_id } => Some(FlowEvent::EdgeContextMenu { edge_id }),
            MouseHit::Nothing => None,
        }
    }

    /// Selects exactly the selectable nodes among `ids` (the nodes a
    /// selection box caught), clearing everything else first.
    pub fn select_box_hits(&mut self, ids: &Vec<String>)
        requires
            old(self).wf(),
        ensures
            final(self).wf(),
            final(self).same_settings(old(self)),
            final(self).edge_seq() == crate::state::selection::edges_deselected(old(self).edge_seq()),
            final(self).node_seq() == crate::state::selection::nodes_selected_where(old(self).node_seq(),
                |i: int| old(self).node_seq()[i].selectable
                    && crate::state::selection::strings_view(ids@).contains(old(self).node_seq()[i].id@)),
    {
        let ghost ns = self.nodes@;
        let ghost view = crate::state::selection::strings_view(ids@);
        self.clear_selection();
        let mut k: usize = 0;
        while k < self.nodes.len()
            invariant
                self.wf(),
                self.same_settings(old(self)),
                self.edges@ == crate::state::selection::edges_deselected(old(self).edge_seq()),
                ns == old(self).node_seq(),
                view == crate::state::selection::strings_view(ids@),
                self.nodes@.len() == ns.len(),
                k <= ns.len(),
                forall|j: int| 0 <= j < ns.len() ==> #[trigger] self.nodes@[j]
                    == (Node { selected: j < k && ns[j].selectable && view.contains(ns[j].id@), ..ns[j] }),
            decreases ns.len() - k,
        {
            let hit = self.nodes[k].selectable && contains_string(ids, &self.nodes[k].id);
            let ghost before = self.nodes@;
            self.nodes[k].selected = hit;
            proof {
                crate::state::model::lemma_same_ids_wf(before, self.edges@, self.nodes@, self.edges@);
            }
            k = k + 1;
        }
        assert(self.nodes@ =~= crate::state::selection::nodes_selected_where(ns,
            |i: int| ns[i].selectable && view.contains(ns[i].id@)));
    }
}

/// Whether `ids` holds a string with the characters of `s`.
fn contains_string(ids: &Vec<String>, s: &String) -> (r: bool)
    ensures
        r == crate::state::selection::strings_view(ids@).contains(s@),
{
    let ghost view = crate::state::selection::strings_view(ids@);
    let mut i: usize = 0;
    while i < ids.len()
        invariant
            i <= ids@.len(),
            view == crate::state::selection::strings_view(ids@),
            forall|k: int| 0 <= k < i ==> view[k] != s@,
        decreases ids@.len() - i,
    {
        if crate::strs::string_eq(&ids[i], s) {
            assert(view[i as int] == s@);
            return true;
        }
        i = i + 1;
    }
    false
}

/// Some handle of `hs` has type `t` and ID `id`.
pub open spec fn has_typed_id(hs: Seq<Handle>, t: HandleType, id: Seq<char>) -> bool {
    exists|k: int| 0 <= k < hs.len() && (#[trigger] hs[k]).handle_type == t && opt_chars(hs[k].id) == Some(id)
}

/// The handle ID a pick reports for a hit on handle `hid` of type `t` of a
/// node with handles `hs`: the ID where a handle of that type carries it,
/// else none.
pub open spec fn picked_handle_id(hs: Seq<Handle>, t: HandleType, hid: Option<Seq<char>>) -> Option<Seq<char>> {
    match hid {
        Some(w) => if has_typed_id(hs, t, w) { Some(w) } else { None },
        None => None,
    }
}

/// The ID of a handle of type `t` with ID `wanted` among `hs`, borrowed.
fn typed_id_of<'a>(hs: &'a Vec<Handle>, t: HandleType, wanted: &str) -> (r: Option<&'a str>)
    ensures
        opt_str_chars(r) == (if has_typed_id(hs@, t, wanted@) { Some(wanted@) } else { None }),
{
    let mut k: usize = 0;
    while k < hs.len()
        invariant
            k <= hs@.len(),
            forall|j: int| 0 <= j < k ==> !((#[trigger] hs@[j]).handle_type == t && opt_chars(hs@[j].id) == Some(wanted@)),
        decreases hs@.len() - k,
    {
        let h = &hs[k];
        if h.handle_type == t && opt_is(&h.id, Some(wanted)) {
            return match &h.id {
                Some(s) => Some(s.as_str()),
                None => None,
            };
        }
        k = k + 1;
    }
    None
}

impl<N, E> Flow<N, E> {
    /// Reports what a hit lands on, borrowing the IDs from the graph: the
    /// node, handle or edge that was hit, or nothing. A handle's ID is kept
    /// only where a handle of that type on the node carries it. Changes
    /// nothing.
    pub fn pick(&self, hit: MouseHit) -> (r: Pick<'_>)
        requires
            match hit {
                MouseHit::Handle { node_id, .. } => has_node(self.node_seq(), node_id@),
                MouseHit::Node { node_id } => has_node(self.node_seq(), node_id@),
                MouseHit::Edge { edge_id } => has_edge(self.edge_seq(), edge_id@),
                MouseHit::Nothing => true,
            },
        ensures
            match hit {
                MouseHit::Handle { node_id, handle_id, handle_type } => r matches Pick::Handle { node_id: n, handle_id: h, handle_type: t }
                    && n@ == node_id@ && t == handle_type
                    && opt_str_chars(h) == picked_handle_id((node_by_id(self.node_seq(), node_id@)->0).handles@, handle_type, opt_chars(handle_id)),
                MouseHit::Node { node_id } => r matches Pick::Node { node_id: n } && n@ == node_id@,
                MouseHit::Edge { edge_id } => r matches Pick::Edge { edge_id: e } && e@ == edge_id@,
                MouseHit::Nothing => r is Nothing,
            },
    {
        match hit {
            MouseHit::Handle { node_id, handle_id, handle_type } => {
                let i = find_node(&self.nodes, node_id.as_str()).unwrap();
                proof {
                    lemma_found_first(self.nodes@, node_id@, i as int);
                }
                let node = &self.nodes[i];
                let h = match &handle_id {
                    Some(w) => typed_id_of(&node.handles, handle_type, w.as_str()),
                    None => None,
                };
                Pick::Handle { node_id: node.id.as_str(), handle_id: h, handle_type }
            },
            MouseHit::Node { node_id } => {
                let i = find_node(&self.nodes, node_id.as_str()).unwrap();
                Pick::Node { node_id: self.nodes[i].id.as_str() }
            },
            MouseHit::Edge { edge_id } => {
                let i = find_edge(&self.edges, edge_id.as_str()).unwrap();
                Pick::Edge { edge_id: self.edges[i].id.as_str() }
            },
            MouseHit::Nothing => Pick::Nothing,
        }
    }
}

} // verus!
