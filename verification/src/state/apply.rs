//! Applying actions to a flow: what each action changes in the graph, what
//! it reports, and what it leaves to the viewport.

use vstd::prelude::*;
use crate::actions::{
    controls_binding, default_controls_key_binding, default_flow_key_binding, flow_binding,
    ControlsAction, FlowAction,
};
use crate::input::KeyEvent;
use crate::events::{reports_deletion, reports_selection, EventResponse, FlowEvent};
use crate::state::graph::{attached_mask, edges_kept_unless_selected_deletable, kept_unless_selected_deletable};
use crate::state::retain::{masked, negated};
use crate::state::selection::{
    collect_selected_edge_ids, collect_selected_node_ids, edges_deselected, first_selected_node,
    next_index, nodes_deselected, nodes_selected_where, prev_index, selected_edge_ids,
    selected_node_ids, strings_view, Direction,
};
use crate::state::Flow;
use crate::strs::{copy_string, string_eq};
use crate::types::{Edge, Node};

verus! {

/// The part of the mouse drag state that cancelling a connection reads.
#[derive(Debug)]
pub enum ConnectionDrag {
    /// No connection is being dragged.
    Idle,
    /// A new connection is being dragged.
    Creating,
    /// An end of an existing edge is being dragged.
    Reconnecting {
        /// The edge being reconnected.
        edge_id: String,
    },
}

/// The work an action leaves to the viewport, done after the flow changed.
#[derive(Debug, Clone, Copy, PartialEq, Eq, Structural)]
pub enum ViewWork {
    /// Nothing to do.
    Nothing,
    /// Pan one step left, then report the viewport.
    PanLeft,
    /// Pan one step right, then report the viewport.
    PanRight,
    /// Pan one step up, then report the viewport.
    PanUp,
    /// Pan one step down, then report the viewport.
    PanDown,
    /// Center on the selected node, then report the viewport.
    CenterOnSelected,
    /// Bring the selection into view as the flow's reveal policy says; the
    /// response stands.
    RevealSelection,
    /// Select the nearest node in the direction, reveal it, then report the
    /// selection change with [`Flow::selection_response`].
    Navigate(Direction),
    /// Zoom in, then report the viewport.
    ZoomIn,
    /// Zoom out, then report the viewport.
    ZoomOut,
    /// Reset the zoom, then report the viewport.
    ResetZoom,
    /// Fit the view to the nodes, then report the viewport.
    FitView,
}

/// The outcome of applying an action.
#[derive(Debug)]
pub struct ActionStep {
    /// The response, unless the view work replaces it.
    pub response: EventResponse,
    /// The work left to the viewport.
    pub view: ViewWork,
    /// Whether the connection drag in progress ends.
    pub end_drag: bool,
}

/// A locked flow refuses the action: only panning and centering stay allowed.
pub open spec fn refused_when_locked(a: FlowAction) -> bool {
    !(a is PanLeft || a is PanRight || a is PanUp || a is PanDown || a is CenterOnSelected)
}

/// The IDs of the nodes, in order.
pub open spec fn node_ids_of<N>(s: Seq<Node<N>>) -> Seq<Seq<char>> {
    s.map_values(|n: Node<N>| n.id@)
}

/// The IDs of the edges, in order.
pub open spec fn edge_ids_of<E>(s: Seq<Edge<E>>) -> Seq<Seq<char>> {
    s.map_values(|e: Edge<E>| e.id@)
}

/// Deleting the selection of a graph: the nodes left, the edges left, the
/// nodes removed and the edges removed. Selected deletable nodes go with the
/// edges attached to them; then the selected deletable edges that are left go.
pub open spec fn deletion<N, E>(nodes: Seq<Node<N>>, edges: Seq<Edge<E>>)
    -> (Seq<Node<N>>, Seq<Edge<E>>, Seq<Node<N>>, Seq<Edge<E>>)
{
    let keep = kept_unless_selected_deletable(nodes);
    let n1 = masked(nodes, keep);
    let e1 = masked(edges, attached_mask(n1, edges));
    let ekeep = edges_kept_unless_selected_deletable(e1);
    (n1, masked(e1, ekeep), masked(nodes, negated(keep)), masked(e1, negated(ekeep)))
}

/// Collects the IDs of the nodes.
fn collect_node_ids<N>(nodes: &Vec<Node<N>>) -> (r: Vec<String>)
    ensures
        strings_view(r@) == node_ids_of(nodes@),
{
    let mut out: Vec<String> = Vec::new();
    let mut i: usize = 0;
    while i < nodes.len()
        invariant
            i <= nodes@.len(),
            strings_view(out@) == node_ids_of(nodes@.take(i as int)),
        decreases nodes@.len() - i,
    {
        let ghost before = out@;
        out.push(copy_string(&nodes[i].id));
        proof {
            assert(nodes@.take(i + 1) =~= nodes@.take(i as int).push(nodes@[i as int]));
            assert(strings_view(out@) =~= strings_view(before).push(nodes@[i as int].id@));
            assert(node_ids_of(nodes@.take(i + 1)) =~= node_ids_of(nodes@.take(i as int)).push(nodes@[i as int].id@));
        }
        i = i + 1;
    }
    assert(nodes@.take(nodes@.len() as int) =~= nodes@);
    out
}

/// Collects the IDs of the edges.
fn collect_edge_ids<E>(edges: &Vec<Edge<E>>) -> (r: Vec<String>)
    ensures
        strings_view(r@) == edge_ids_of(edges@),
{
    let mut out: Vec<String> = Vec::new();
    let mut i: usize = 0;
    while i < edges.len()
        invariant
            i <= edges@.len(),
            strings_view(out@) == edge_ids_of(edges@.take(i as int)),
        decreases edges@.len() - i,
    {
        let ghost before = out@;
        out.push(copy_string(&edges[i].id));
        proof {
            assert(edges@.take(i + 1) =~= edges@.take(i as int).push(edges@[i as int]));
            assert(strings_view(out@) =~= strings_view(before).push(edges@[i as int].id@));
            assert(edge_ids_of(edges@.take(i + 1)) =~= edge_ids_of(edges@.take(i as int)).push(edges@[i as int].id@));
        }
        i = i + 1;
    }
    assert(edges@.take(edges@.len() as int) =~= edges@);
    out
}

/// Compares two lists of strings by content.
fn strings_equal(a: &Vec<String>, b: &Vec<String>) -> (r: bool)
    ensures
        r == (strings_view(a@) == strings_view(b@)),
{
    if a.len() != b.len() {
        assert(strings_view(a@).len() != strings_view(b@).len());
        return false;
    }
    let mut i: usize = 0;
    while i < a.len()
        invariant
            a@.len() == b@.len(),
            i <= a@.len(),
            forall|k: int| 0 <= k < i ==> #[trigger] a@[k]@ == b@[k]@,
        decreases a@.len() - i,
    {
        if !string_eq(&a[i], &b[i]) {
            assert(strings_view(a@)[i as int] != strings_view(b@)[i as int]);
            return false;
        }
        i = i + 1;
    }
    assert(strings_view(a@) =~= strings_view(b@));
    true
}

impl<N, E> Flow<N, E> {
    /// The response a selection check gives: `Handled` when the selection
    /// matches the snapshot, else one `SelectionChanged` event with the
    /// current selection.
    pub open spec fn is_selection_response(&self, r: EventResponse) -> bool {
        if self.snapshot_matches_selection() {
            r is Handled
        } else {
            r matches EventResponse::Event(v) && v@.len() == 1
                && reports_selection(v@[0], selected_node_ids(self.node_seq()), selected_edge_ids(self.edge_seq()))
        }
    }

    /// Whether the selection matches the snapshot.
    pub fn selection_matches_snapshot(&self) -> (r: bool)
        ensures
            r == self.snapshot_matches_selection(),
    {
        let nodes = collect_selected_node_ids(&self.nodes);
        let edges = collect_selected_edge_ids(&self.edges);
        strings_equal(&nodes, &self.prev_selection_node_ids) && strings_equal(&edges, &self.prev_selection_edge_ids)
    }

    /// A `SelectionChanged` event with the current selection if it differs
    /// from the snapshot, `None` otherwise.
    pub fn maybe_selection_changed_event(&self) -> (r: Option<FlowEvent>)
        ensures
            self.snapshot_matches_selection() ==> r is None,
            !self.snapshot_matches_selection() ==> (r matches Some(ev)
                && reports_selection(ev, selected_node_ids(self.node_seq()), selected_edge_ids(self.edge_seq()))),
    {
        if self.selection_matches_snapshot() {
            None
        } else {
            Some(FlowEvent::SelectionChanged {
                node_ids: collect_selected_node_ids(&self.nodes),
                edge_ids: collect_selected_edge_ids(&self.edges),
            })
        }
    }

    /// `Handled` when the selection matches the snapshot, else the
    /// selection change.
    pub fn selection_response(&self) -> (r: EventResponse)
        ensures
            self.is_selection_response(r),
    {
        match self.maybe_selection_changed_event() {
            None => EventResponse::Handled,
            Some(ev) => {
                let mut v: Vec<FlowEvent> = Vec::new();
                v.push(ev);
                EventResponse::Event(v)
            },
        }
    }

    /// Toggles the interactivity lock.
    pub fn toggle_lock(&mut self)
        ensures
            *final(self) == old(self).lock_toggled(),
            final(self).is_locked() == !old(self).is_locked(),
    {
        self.locked = !self.locked;
    }

    /// Deletes the selected deletable nodes, with their edges, and then the
    /// selected deletable edges, reporting the removed IDs and the
    /// selection change against the snapshot.
    ///
    /// Edges removed because one of their nodes was are not reported.
    pub fn delete_selected(&mut self) -> (r: EventResponse)
        requires
            old(self).wf(),
        ensures
            final(self).wf(),
            final(self).same_settings(old(self)),
            ({
                let (n1, e2, rn, re) = deletion(old(self).node_seq(), old(self).edge_seq());
                &&& final(self).node_seq() == n1
                &&& final(self).edge_seq() == e2
                &&& if rn.len() == 0 && re.len() == 0 {
                    r is Handled
                } else {
                    &&& r matches EventResponse::Event(v)
                    &&& v@.len() >= 1
                    &&& reports_deletion(v@[0], node_ids_of(rn), edge_ids_of(re))
                    &&& if final(self).snapshot_matches_selection() {
                        v@.len() == 1
                    } else {
                        v@.len() == 2 && reports_selection(v@[1], selected_node_ids(n1), selected_edge_ids(e2))
                    }
                }
            }),
    {
        let removed_nodes = self.remove_selected_nodes();
        let removed_edges = self.remove_selected_edges();
        if removed_nodes.len() == 0 && removed_edges.len() == 0 {
            return EventResponse::Handled;
        }
        let node_ids = collect_node_ids(&removed_nodes);
        let edge_ids = collect_edge_ids(&removed_edges);
        let mut events: Vec<FlowEvent> = Vec::new();
        events.push(FlowEvent::Deleted { node_ids, edge_ids });
        match self.maybe_selection_changed_event() {
            Some(sel) => events.push(sel),
            None => {},
        }
        EventResponse::Event(events)
    }

    /// Cancels the connection being created or the edge being reconnected:
    /// clears the preview and ends such a drag.
    pub fn cancel_connection(&mut self, drag: &ConnectionDrag) -> (r: ActionStep)
        ensures
            final(self).same_but_preview(old(self)),
            final(self).preview() is None,
            r.view == ViewWork::Nothing,
            r.end_drag == !(drag is Idle),
            match drag {
                ConnectionDrag::Reconnecting { edge_id } => r.response matches EventResponse::Event(v)
                    && v@.len() == 1 && (v@[0] matches FlowEvent::ReconnectionCancelled { edge_id: e } && e@ == edge_id@),
                ConnectionDrag::Creating => r.response matches EventResponse::Event(v)
                    && v@.len() == 1 && v@[0] is ConnectionCancelled,
                ConnectionDrag::Idle => if old(self).preview() is Some {
                    r.response matches EventResponse::Event(v) && v@.len() == 1 && v@[0] is ConnectionCancelled
                } else {
                    r.response is Handled
                },
            },
    {
        let had_preview = self.edge_preview.is_some();
        self.edge_preview = None;
        let mut v: Vec<FlowEvent> = Vec::new();
        match drag {
            ConnectionDrag::Reconnecting { edge_id } => {
                v.push(FlowEvent::ReconnectionCancelled { edge_id: copy_string(edge_id) });
                ActionStep { response: EventResponse::Event(v), view: ViewWork::Nothing, end_drag: true }
            },
            ConnectionDrag::Creating => {
                v.push(FlowEvent::ConnectionCancelled);
                ActionStep { response: EventResponse::Event(v), view: ViewWork::Nothing, end_drag: true }
            },
            ConnectionDrag::Idle => {
                if had_preview {
                    v.push(FlowEvent::ConnectionCancelled);
                    ActionStep { response: EventResponse::Event(v), view: ViewWork::Nothing, end_drag: false }
                } else {
                    ActionStep { response: EventResponse::Handled, view: ViewWork::Nothing, end_drag: false }
                }
            },
        }
    }

    /// `self` has the graph, configuration and preview of `o`.
    pub open spec fn same_state(&self, o: &Self) -> bool {
        &&& self.node_seq() == o.node_seq()
        &&& self.edge_seq() == o.edge_seq()
        &&& self.same_config(o)
        &&& self.preview() == o.preview()
    }


    /// The effect of applying `action` to `old`, giving `new` and the step `r`
    /// (see [`Flow::apply`]).
    pub open spec fn applied(old: Self, new: Self, action: FlowAction, drag: ConnectionDrag, r: ActionStep) -> bool {
        &&& (strings_view(new.snapshot_node_ids()) == selected_node_ids(old.node_seq()))
        &&& (strings_view(new.snapshot_edge_ids()) == selected_edge_ids(old.edge_seq()))
        &&& (old.is_locked() && refused_when_locked(action) ==> {
                &&& r.response is NotHandled
                &&& r.view == ViewWork::Nothing
                &&& !r.end_drag
                &&& new.same_state(&old)
            })
        &&& (!(old.is_locked() && refused_when_locked(action)) ==> match action {
                FlowAction::SelectNext => {
                    &&& r.view == ViewWork::RevealSelection
                    &&& !r.end_drag
                    &&& new.same_config(&old)
                    &&& new.preview() == old.preview()
                    &&& new.is_selection_response(r.response)
                    &&& old.node_seq().len() == 0 ==> new.same_state(&old)
                    &&& old.node_seq().len() > 0 ==> {
                        let k = next_index(first_selected_node(old.node_seq()), old.node_seq().len() as int);
                        &&& new.node_seq() == nodes_selected_where(old.node_seq(), |i: int| i == k)
                        &&& new.edge_seq() == edges_deselected(old.edge_seq())
                    }
                },
                FlowAction::SelectPrev => {
                    &&& r.view == ViewWork::RevealSelection
                    &&& !r.end_drag
                    &&& new.same_config(&old)
                    &&& new.preview() == old.preview()
                    &&& new.is_selection_response(r.response)
                    &&& old.node_seq().len() == 0 ==> new.same_state(&old)
                    &&& old.node_seq().len() > 0 ==> {
                        let k = prev_index(first_selected_node(old.node_seq()), old.node_seq().len() as int);
                        &&& new.node_seq() == nodes_selected_where(old.node_seq(), |i: int| i == k)
                        &&& new.edge_seq() == edges_deselected(old.edge_seq())
                    }
                },
                FlowAction::SelectUp => r.view == ViewWork::Navigate(Direction::Up) && r.response is Handled
                    && !r.end_drag && new.same_state(&old),
                FlowAction::SelectDown => r.view == ViewWork::Navigate(Direction::Down) && r.response is Handled
                    && !r.end_drag && new.same_state(&old),
                FlowAction::SelectLeft => r.view == ViewWork::Navigate(Direction::Left) && r.response is Handled
                    && !r.end_drag && new.same_state(&old),
                FlowAction::SelectRight => r.view == ViewWork::Navigate(Direction::Right) && r.response is Handled
                    && !r.end_drag && new.same_state(&old),
                FlowAction::ClearSelection => {
                    &&& r.view == ViewWork::Nothing
                    &&& !r.end_drag
                    &&& new.same_config(&old)
                    &&& new.preview() == old.preview()
                    &&& new.node_seq() == nodes_deselected(old.node_seq())
                    &&& new.edge_seq() == edges_deselected(old.edge_seq())
                    &&& new.is_selection_response(r.response)
                },
                FlowAction::ToggleMultiSelect => {
                    &&& r.view == ViewWork::Nothing
                    &&& r.response is Handled
                    &&& !r.end_drag
                    &&& new.multi_select() == !old.multi_select()
                    &&& new.multi_select_toggled().same_state(&old)
                },
                FlowAction::PanLeft => r.view == ViewWork::PanLeft && r.response is Handled
                    && !r.end_drag && new.same_state(&old),
                FlowAction::PanRight => r.view == ViewWork::PanRight && r.response is Handled
                    && !r.end_drag && new.same_state(&old),
                FlowAction::PanUp => r.view == ViewWork::PanUp && r.response is Handled
                    && !r.end_drag && new.same_state(&old),
                FlowAction::PanDown => r.view == ViewWork::PanDown && r.response is Handled
                    && !r.end_drag && new.same_state(&old),
                FlowAction::CenterOnSelected => r.view == ViewWork::CenterOnSelected && r.response is Handled
                    && !r.end_drag && new.same_state(&old),
                FlowAction::Delete => {
                    let (n1, e2, rn, re) = deletion(old.node_seq(), old.edge_seq());
                    &&& r.view == ViewWork::Nothing
                    &&& !r.end_drag
                    &&& new.same_config(&old)
                    &&& new.preview() == old.preview()
                    &&& new.node_seq() == n1
                    &&& new.edge_seq() == e2
                    &&& if rn.len() == 0 && re.len() == 0 {
                        r.response is Handled
                    } else {
                        &&& r.response matches EventResponse::Event(v)
                        &&& v@.len() >= 1
                        &&& reports_deletion(v@[0], node_ids_of(rn), edge_ids_of(re))
                        &&& if new.snapshot_matches_selection() {
                            v@.len() == 1
                        } else {
                            v@.len() == 2 && reports_selection(v@[1], selected_node_ids(n1), selected_edge_ids(e2))
                        }
                    }
                },
                FlowAction::CancelConnection => {
                    &&& new.node_seq() == old.node_seq()
                    &&& new.edge_seq() == old.edge_seq()
                    &&& new.same_config(&old)
                    &&& new.preview() is None
                    &&& r.view == ViewWork::Nothing
                    &&& r.end_drag == !(drag is Idle)
                    &&& match drag {
                        ConnectionDrag::Reconnecting { edge_id } => r.response matches EventResponse::Event(v)
                            && v@.len() == 1 && (v@[0] matches FlowEvent::ReconnectionCancelled { edge_id: e } && e@ == edge_id@),
                        ConnectionDrag::Creating => r.response matches EventResponse::Event(v)
                            && v@.len() == 1 && v@[0] is ConnectionCancelled,
                        ConnectionDrag::Idle => if old.preview() is Some {
                            r.response matches EventResponse::Event(v) && v@.len() == 1 && v@[0] is ConnectionCancelled
                        } else {
                            r.response is Handled
                        },
                    }
                }
            })
    }

    /// Applies a flow action.
    ///
    /// Records the selection as the snapshot first. A locked flow refuses
    /// every action but panning and centering with `NotHandled`. Selection
    /// actions answer with the selection change against the snapshot;
    /// `Delete` removes the selected deletable nodes and edges and reports
    /// them; `CancelConnection` clears the preview and ends a connection
    /// drag. What needs the viewport (panning, centering, spatial navigation,
    /// revealing the selection) is left to the caller in the step's `view`.
    pub fn apply(&mut self, action: FlowAction, drag: &ConnectionDrag) -> (r: ActionStep)
        requires
            old(self).wf(),
        ensures
            final(self).wf(),
            Self::applied(*old(self), *final(self), action, *drag, r),
    {
        self.snapshot_selection();
        let refused = match action {
            FlowAction::PanLeft | FlowAction::PanRight | FlowAction::PanUp | FlowAction::PanDown
            | FlowAction::CenterOnSelected => false,
            _ => true,
        };
        if self.locked && refused {
            return ActionStep { response: EventResponse::NotHandled, view: ViewWork::Nothing, end_drag: false };
        }
        match action {
            FlowAction::SelectNext => {
                self.select_next_node();
                ActionStep { response: self.selection_response(), view: ViewWork::RevealSelection, end_drag: false }
            },
            FlowAction::SelectPrev => {
                self.select_prev_node();
                ActionStep { response: self.selection_response(), view: ViewWork::RevealSelection, end_drag: false }
            },
            FlowAction::SelectUp => ActionStep {
                response: EventResponse::Handled,
                view: ViewWork::Navigate(Direction::Up),
                end_drag: false,
            },
            FlowAction::SelectDown => ActionStep {
                response: EventResponse::Handled,
                view: ViewWork::Navigate(Direction::Down),
                end_drag: false,
            },
            FlowAction::SelectLeft => ActionStep {
                response: EventResponse::Handled,
                view: ViewWork::Navigate(Direction::Left),
                end_drag: false,
            },
            FlowAction::SelectRight => ActionStep {
                response: EventResponse::Handled,
                view: ViewWork::Navigate(Direction::Right),
                end_drag: false,
            },
            FlowAction::ClearSelection => {
                self.clear_selection();
                ActionStep { response: self.selection_response(), view: ViewWork::Nothing, end_drag: false }
            },
            FlowAction::ToggleMultiSelect => {
                self.multi_select_mode = !self.multi_select_mode;
                ActionStep { response: EventResponse::Handled, view: ViewWork::Nothing, end_drag: false }
            },
            FlowAction::PanLeft => ActionStep { response: EventResponse::Handled, view: ViewWork::PanLeft, end_drag: false },
            FlowAction::PanRight => ActionStep { response: EventResponse::Handled, view: ViewWork::PanRight, end_drag: false },
            FlowAction::PanUp => ActionStep { response: EventResponse::Handled, view: ViewWork::PanUp, end_drag: false },
            FlowAction::PanDown => ActionStep { response: EventResponse::Handled, view: ViewWork::PanDown, end_drag: false },
            FlowAction::CenterOnSelected => ActionStep {
                response: EventResponse::Handled,
                view: ViewWork::CenterOnSelected,
                end_drag: false,
            },
            FlowAction::Delete => {
                let response = self.delete_selected();
                ActionStep { response, view: ViewWork::Nothing, end_drag: false }
            },
            FlowAction::CancelConnection => self.cancel_connection(drag),
        }
    }

    /// Applies a viewport controls action: `ToggleLock` toggles the lock;
    /// the zoom and fit actions are left to the viewport.
    pub fn apply_controls_action(&mut self, action: ControlsAction) -> (r: ActionStep)
        ensures
            !r.end_drag,
            action is ToggleLock ==> *final(self) == old(self).lock_toggled() && r.response is Handled
                && r.view == ViewWork::Nothing,
            !(action is ToggleLock) ==> *final(self) == *old(self) && r.response is Handled,
            action is ZoomIn ==> r.view == ViewWork::ZoomIn,
            action is ZoomOut ==> r.view == ViewWork::ZoomOut,
            action is ResetZoom ==> r.view == ViewWork::ResetZoom,
            action is FitView ==> r.view == ViewWork::FitView,
    {
        let view = match action {
            ControlsAction::ZoomIn => ViewWork::ZoomIn,
            ControlsAction::ZoomOut => ViewWork::ZoomOut,
            ControlsAction::ResetZoom => ViewWork::ResetZoom,
            ControlsAction::FitView => ViewWork::FitView,
            ControlsAction::ToggleLock => {
                self.toggle_lock();
                ViewWork::Nothing
            },
        };
        ActionStep { response: EventResponse::Handled, view, end_drag: false }
    }


    /// Handles a key press with the default flow bindings: applies the bound
    /// action, or answers `NotHandled` and changes nothing.
    pub fn handle_key_event(&mut self, key: KeyEvent, drag: &ConnectionDrag) -> (r: ActionStep)
        requires
            old(self).wf(),
        ensures
            final(self).wf(),
            match flow_binding(key) {
                Some(a) => Self::applied(*old(self), *final(self), a, *drag, r),
                None => r.response is NotHandled && r.view == ViewWork::Nothing && !r.end_drag
                    && *final(self) == *old(self),
            },
    {
        match default_flow_key_binding(&key) {
            Some(a) => self.apply(a, drag),
            None => ActionStep { response: EventResponse::NotHandled, view: ViewWork::Nothing, end_drag: false },
        }
    }

    /// Handles a key press with the default controls bindings: applies the
    /// bound controls action, or answers `NotHandled` and changes nothing.
    pub fn handle_controls_key_event(&mut self, key: KeyEvent) -> (r: ActionStep)
        ensures
            !r.end_drag,
            controls_binding(key) is None ==> r.response is NotHandled && r.view == ViewWork::Nothing
                && *final(self) == *old(self),
            controls_binding(key) == Some(ControlsAction::ToggleLock) ==> *final(self) == old(self).lock_toggled()
                && r.response is Handled && r.view == ViewWork::Nothing,
            controls_binding(key) == Some(ControlsAction::ZoomIn) ==> *final(self) == *old(self)
                && r.response is Handled && r.view == ViewWork::ZoomIn,
            controls_binding(key) == Some(ControlsAction::ZoomOut) ==> *final(self) == *old(self)
                && r.response is Handled && r.view == ViewWork::ZoomOut,
            controls_binding(key) == Some(ControlsAction::ResetZoom) ==> *final(self) == *old(self)
                && r.response is Handled && r.view == ViewWork::ResetZoom,
            controls_binding(key) == Some(ControlsAction::FitView) ==> *final(self) == *old(self)
                && r.response is Handled && r.view == ViewWork::FitView,
    {
        match default_controls_key_binding(&key) {
            Some(a) => self.apply_controls_action(a),
            None => ActionStep { response: EventResponse::NotHandled, view: ViewWork::Nothing, end_drag: false },
        }
    }

}

} // verus!
