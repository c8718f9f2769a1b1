//! Flow graph state: nodes, edges, selection and interaction settings.

pub mod animation;
pub mod apply;
pub mod arrange;
pub mod checks;
pub mod content;
pub mod gesture;
pub mod graph;
pub mod guarantees;
pub mod handles;
pub mod hierarchy;
pub mod levels;
pub mod laws;
pub mod preview;
pub mod lookup;
pub mod model;
pub mod retain;
pub mod route;
pub mod selection;
pub mod tree;
pub mod update;
pub mod walk;
pub mod zorder;

use vstd::prelude::*;
use crate::error::Error;
use crate::state::checks::validate_graph;
use crate::state::model::{graph_problem, graph_wf, lemma_no_problem_wf, reports};
use crate::state::preview::EdgePreview;
use crate::types::{ConnectionMode, Edge, Node, SelectionReveal};

verus! {

/// Default animation speed in milliseconds per phase step.
pub const DEFAULT_ANIMATION_SPEED_MS: u64 = 120;

/// The interaction settings of a flow and its animation clock, as plain
/// values: what the contracts compare and what the builders set.
pub struct Settings {
    /// Whether nodes are selected when a drag starts.
    pub select_nodes_on_drag: bool,
    /// Whether dragging an unselected node clears the existing selection.
    pub deselect_on_drag: bool,
    /// Whether a left-drag on empty canvas draws a selection box.
    pub selection_on_drag: bool,
    /// Whether clicking empty space clears the existing selection.
    pub deselect_on_pane_click: bool,
    /// Whether clicks toggle selection without clearing others.
    pub multi_select_mode: bool,
    /// Accumulated animation time in milliseconds.
    pub animation_clock: u64,
    /// Animation speed in milliseconds per phase step.
    pub animation_speed_ms: u64,
    /// Which handle type combinations may connect.
    pub connection_mode: ConnectionMode,
    /// Whether interaction mutations are locked.
    pub locked: bool,
    /// Whether edges are reconnectable by default.
    pub edges_reconnectable: bool,
    /// Whether dragging a node near the edge pans.
    pub auto_pan_on_node_drag: bool,
    /// Whether dragging a connection near the edge pans.
    pub auto_pan_on_connect: bool,
    /// What the viewport does when keyboard navigation changes the selection.
    pub selection_reveal: SelectionReveal,
    /// Whether selected nodes are ordered above the others.
    pub elevate_nodes_on_select: bool,
}

/// The settings of a new flow: nodes selected on drag, dragging and pane
/// clicks clear the selection, no selection box, single selection, the clock
/// at zero, 120 ms per animation step, strict connections, unlocked,
/// reconnectable edges, auto-pan on both drags, selections revealed by
/// keeping them visible, and selected nodes raised.
pub open spec fn default_settings() -> Settings {
    Settings {
        select_nodes_on_drag: true,
        deselect_on_drag: true,
        selection_on_drag: false,
        deselect_on_pane_click: true,
        multi_select_mode: false,
        animation_clock: 0,
        animation_speed_ms: DEFAULT_ANIMATION_SPEED_MS,
        connection_mode: ConnectionMode::Strict,
        locked: false,
        edges_reconnectable: true,
        auto_pan_on_node_drag: true,
        auto_pan_on_connect: true,
        selection_reveal: SelectionReveal::EnsureVisible,
        elevate_nodes_on_select: true,
    }
}

/// The flow graph: nodes, edges, selection and interaction settings.
///
/// Selection lives on each entity (`node.selected` / `edge.selected`).
#[derive(Debug)]
pub struct Flow<N, E> {
    /// The nodes in the graph, in insertion order.
    pub(crate) nodes: Vec<Node<N>>,
    /// The edges connecting nodes, in insertion order.
    pub(crate) edges: Vec<Edge<E>>,
    /// Whether nodes are selected when a drag starts (default: true).
    pub select_nodes_on_drag: bool,
    /// Whether dragging an unselected node clears the existing selection (default: true).
    pub deselect_on_drag: bool,
    /// Whether a left-drag on empty canvas draws a selection box (default: false).
    pub selection_on_drag: bool,
    /// Whether clicking empty space clears the existing selection (default: true).
    pub deselect_on_pane_click: bool,
    /// Whether multi-select mode is active: clicks toggle selection without clearing others.
    pub multi_select_mode: bool,
    /// Accumulated animation time in milliseconds.
    pub(crate) animation_elapsed_ms: u64,
    /// Animation speed in milliseconds per phase step (default: 120).
    pub animation_speed_ms: u64,
    /// Connection mode controlling which handle type combinations are allowed.
    pub connection_mode: ConnectionMode,
    /// Whether interaction mutations (select, drag, connect, delete) are locked.
    pub locked: bool,
    /// Whether edges are reconnectable by default.
    pub edges_reconnectable: bool,
    /// Whether the viewport auto-pans when dragging a node near the canvas edge.
    pub auto_pan_on_node_drag: bool,
    /// Whether the viewport auto-pans when dragging a connection near the canvas edge.
    pub auto_pan_on_connect: bool,
    /// What the viewport does when keyboard navigation changes the selection.
    pub selection_reveal: SelectionReveal,
    /// Whether selected nodes are ordered above non-selected nodes.
    pub elevate_nodes_on_select: bool,
    /// The edge being drawn, if any.
    pub(crate) edge_preview: Option<EdgePreview>,
    /// Selected node IDs when the current handler started.
    pub(crate) prev_selection_node_ids: Vec<String>,
    /// Selected edge IDs when the current handler started.
    pub(crate) prev_selection_edge_ids: Vec<String>,
}

impl<N, E> Flow<N, E> {
    /// The nodes, in insertion order.
    pub closed spec fn node_seq(&self) -> Seq<Node<N>> {
        self.nodes@
    }

    /// The edges, in insertion order.
    pub closed spec fn edge_seq(&self) -> Seq<Edge<E>> {
        self.edges@
    }

    /// Accumulated animation time in milliseconds.
    pub open spec fn animation_clock(&self) -> u64 {
        self.settings().animation_clock
    }

    /// The interaction settings and the animation clock, as plain values.
    pub closed spec fn settings(&self) -> Settings {
        Settings {
            select_nodes_on_drag: self.select_nodes_on_drag,
            deselect_on_drag: self.deselect_on_drag,
            selection_on_drag: self.selection_on_drag,
            deselect_on_pane_click: self.deselect_on_pane_click,
            multi_select_mode: self.multi_select_mode,
            animation_clock: self.animation_elapsed_ms,
            animation_speed_ms: self.animation_speed_ms,
            connection_mode: self.connection_mode,
            locked: self.locked,
            edges_reconnectable: self.edges_reconnectable,
            auto_pan_on_node_drag: self.auto_pan_on_node_drag,
            auto_pan_on_connect: self.auto_pan_on_connect,
            selection_reveal: self.selection_reveal,
            elevate_nodes_on_select: self.elevate_nodes_on_select,
        }
    }

    /// Whether a left-drag on empty canvas draws a selection box.
    pub open spec fn box_selects_on_drag(&self) -> bool {
        self.settings().selection_on_drag
    }

    /// Whether the viewport auto-pans when a node is dragged near the edge.
    pub open spec fn auto_pans_on_node_drag(&self) -> bool {
        self.settings().auto_pan_on_node_drag
    }

    /// Whether the viewport auto-pans when a connection is dragged near the edge.
    pub open spec fn auto_pans_on_connect(&self) -> bool {
        self.settings().auto_pan_on_connect
    }

    /// What the viewport does when keyboard navigation changes the selection.
    pub open spec fn reveal_mode(&self) -> SelectionReveal {
        self.settings().selection_reveal
    }

    /// The selected node IDs recorded at the last snapshot.
    pub closed spec fn snapshot_node_ids(&self) -> Seq<String> {
        self.prev_selection_node_ids@
    }

    /// The selected edge IDs recorded at the last snapshot.
    pub closed spec fn snapshot_edge_ids(&self) -> Seq<String> {
        self.prev_selection_edge_ids@
    }

    /// Whether interaction mutations are locked.
    pub open spec fn is_locked(&self) -> bool {
        self.settings().locked
    }

    /// Whether selected nodes are elevated.
    pub open spec fn elevates(&self) -> bool {
        self.settings().elevate_nodes_on_select
    }

    /// Whether edges are reconnectable by default.
    pub open spec fn reconnect_default(&self) -> bool {
        self.settings().edges_reconnectable
    }

    /// The animation speed in milliseconds per phase step.
    pub open spec fn speed(&self) -> u64 {
        self.settings().animation_speed_ms
    }

    /// `self` with the animation clock at `clock` and all else equal.
    pub closed spec fn with_clock(&self, clock: u64) -> Self {
        Flow { animation_elapsed_ms: clock, ..*self }
    }

    /// Whether nodes are selected when a drag starts.
    pub open spec fn selects_on_drag(&self) -> bool {
        self.settings().select_nodes_on_drag
    }

    /// Whether dragging an unselected node clears the selection.
    pub open spec fn deselects_on_drag(&self) -> bool {
        self.settings().deselect_on_drag
    }

    /// Whether clicking empty space clears the selection.
    pub open spec fn deselects_on_pane_click(&self) -> bool {
        self.settings().deselect_on_pane_click
    }

    /// Whether multi-select mode is active.
    pub open spec fn multi_select(&self) -> bool {
        self.settings().multi_select_mode
    }

    /// `self` with the lock toggled and all else equal.
    pub closed spec fn lock_toggled(&self) -> Self {
        Flow { locked: !self.locked, ..*self }
    }

    /// `self` with multi-select mode toggled and all else equal.
    pub closed spec fn multi_select_toggled(&self) -> Self {
        Flow { multi_select_mode: !self.multi_select_mode, ..*self }
    }

    /// The connection mode.
    pub open spec fn mode(&self) -> ConnectionMode {
        self.settings().connection_mode
    }

    /// The edge being drawn, if any.
    pub closed spec fn preview(&self) -> Option<EdgePreview> {
        self.edge_preview
    }

    /// Identifiers are unique and every edge joins two distinct existing nodes.
    pub open spec fn wf(&self) -> bool {
        graph_wf(self.node_seq(), self.edge_seq())
    }

    /// Everything but the nodes and edges is the same in `self` and `o`.
    pub open spec fn same_settings(&self, o: &Self) -> bool {
        &&& self.same_config(o)
        &&& self.snapshot_node_ids() == o.snapshot_node_ids()
        &&& self.snapshot_edge_ids() == o.snapshot_edge_ids()
        &&& self.preview() == o.preview()
    }

    /// Everything but the edge preview is the same in `self` and `o`.
    pub open spec fn same_but_preview(&self, o: &Self) -> bool {
        &&& self.node_seq() == o.node_seq()
        &&& self.edge_seq() == o.edge_seq()
        &&& self.same_config(o)
        &&& self.snapshot_node_ids() == o.snapshot_node_ids()
        &&& self.snapshot_edge_ids() == o.snapshot_edge_ids()
    }

    /// The interaction settings and the animation clock are the same in `self` and `o`.
    pub open spec fn same_config(&self, o: &Self) -> bool {
        self.settings() == o.settings()
    }

    /// The interaction settings a new flow starts with.
    pub open spec fn has_default_settings(&self) -> bool {
        self.settings() == default_settings()
    }

    /// `self` with `select_nodes_on_drag` set to `v` and all else equal.
    pub closed spec fn set_select_nodes_on_drag(&self, v: bool) -> Self {
        Flow { select_nodes_on_drag: v, ..*self }
    }

    /// `self` with `deselect_on_drag` set to `v` and all else equal.
    pub closed spec fn set_deselect_on_drag(&self, v: bool) -> Self {
        Flow { deselect_on_drag: v, ..*self }
    }

    /// `self` with `deselect_on_pane_click` set to `v` and all else equal.
    pub closed spec fn set_deselect_on_pane_click(&self, v: bool) -> Self {
        Flow { deselect_on_pane_click: v, ..*self }
    }

    /// `self` with `selection_on_drag` set to `v` and all else equal.
    pub closed spec fn set_selection_on_drag(&self, v: bool) -> Self {
        Flow { selection_on_drag: v, ..*self }
    }

    /// `self` with `animation_speed_ms` set to `v` and all else equal.
    pub closed spec fn set_animation_speed_ms(&self, v: u64) -> Self {
        Flow { animation_speed_ms: v, ..*self }
    }

    /// `self` with `connection_mode` set to `v` and all else equal.
    pub closed spec fn set_connection_mode(&self, v: ConnectionMode) -> Self {
        Flow { connection_mode: v, ..*self }
    }

    /// `self` with `multi_select_mode` set to `v` and all else equal.
    pub closed spec fn set_multi_select_mode(&self, v: bool) -> Self {
        Flow { multi_select_mode: v, ..*self }
    }

    /// `self` with `locked` set to `v` and all else equal.
    pub closed spec fn set_locked(&self, v: bool) -> Self {
        Flow { locked: v, ..*self }
    }

    /// `self` with `edges_reconnectable` set to `v` and all else equal.
    pub closed spec fn set_edges_reconnectable(&self, v: bool) -> Self {
        Flow { edges_reconnectable: v, ..*self }
    }

    /// `self` with `auto_pan_on_node_drag` set to `v` and all else equal.
    pub closed spec fn set_auto_pan_on_node_drag(&self, v: bool) -> Self {
        Flow { auto_pan_on_node_drag: v, ..*self }
    }

    /// `self` with `selection_reveal` set to `v` and all else equal.
    pub closed spec fn set_selection_reveal(&self, v: SelectionReveal) -> Self {
        Flow { selection_reveal: v, ..*self }
    }

    /// `self` with `auto_pan_on_connect` set to `v` and all else equal.
    pub closed spec fn set_auto_pan_on_connect(&self, v: bool) -> Self {
        Flow { auto_pan_on_connect: v, ..*self }
    }

    /// `self` with `elevate_nodes_on_select` set to `v` and all else equal.
    pub closed spec fn set_elevate_nodes_on_select(&self, v: bool) -> Self {
        Flow { elevate_nodes_on_select: v, ..*self }
    }

    /// Sets whether nodes are selected when a drag starts.
    pub fn with_select_nodes_on_drag(self, enabled: bool) -> (r: Self)
        ensures
            r == self.set_select_nodes_on_drag(enabled),
            r.settings() == (Settings { select_nodes_on_drag: enabled, ..self.settings() }),
            r.snapshot_node_ids() == self.snapshot_node_ids(),
            r.snapshot_edge_ids() == self.snapshot_edge_ids(),
            r.node_seq() == self.node_seq(),
            r.edge_seq() == self.edge_seq(),
            r.preview() == self.preview(),
            r.selects_on_drag() == enabled,
    {
        Flow { select_nodes_on_drag: enabled, ..self }
    }

    /// Sets whether dragging an unselected node clears the existing selection.
    pub fn with_deselect_on_drag(self, enabled: bool) -> (r: Self)
        ensures
            r == self.set_deselect_on_drag(enabled),
            r.settings() == (Settings { deselect_on_drag: enabled, ..self.settings() }),
            r.snapshot_node_ids() == self.snapshot_node_ids(),
            r.snapshot_edge_ids() == self.snapshot_edge_ids(),
            r.node_seq() == self.node_seq(),
            r.edge_seq() == self.edge_seq(),
            r.preview() == self.preview(),
            r.deselects_on_drag() == enabled,
    {
        Flow { deselect_on_drag: enabled, ..self }
    }

    /// Sets whether clicking empty space clears the existing selection.
    pub fn with_deselect_on_pane_click(self, enabled: bool) -> (r: Self)
        ensures
            r == self.set_deselect_on_pane_click(enabled),
            r.settings() == (Settings { deselect_on_pane_click: enabled, ..self.settings() }),
            r.snapshot_node_ids() == self.snapshot_node_ids(),
            r.snapshot_edge_ids() == self.snapshot_edge_ids(),
            r.node_seq() == self.node_seq(),
            r.edge_seq() == self.edge_seq(),
            r.preview() == self.preview(),
            r.deselects_on_pane_click() == enabled,
    {
        Flow { deselect_on_pane_click: enabled, ..self }
    }

    /// Sets whether a left-drag on empty canvas draws a selection box.
    pub fn with_selection_on_drag(self, selection_on_drag: bool) -> (r: Self)
        ensures
            r == self.set_selection_on_drag(selection_on_drag),
            r.settings() == (Settings { selection_on_drag: selection_on_drag, ..self.settings() }),
            r.snapshot_node_ids() == self.snapshot_node_ids(),
            r.snapshot_edge_ids() == self.snapshot_edge_ids(),
            r.node_seq() == self.node_seq(),
            r.edge_seq() == self.edge_seq(),
            r.preview() == self.preview(),
    {
        Flow { selection_on_drag: selection_on_drag, ..self }
    }

    /// Sets the animation speed in milliseconds per phase step.
    pub fn with_animation_speed(self, speed_ms: u64) -> (r: Self)
        ensures
            r == self.set_animation_speed_ms(speed_ms),
            r.settings() == (Settings { animation_speed_ms: speed_ms, ..self.settings() }),
            r.snapshot_node_ids() == self.snapshot_node_ids(),
            r.snapshot_edge_ids() == self.snapshot_edge_ids(),
            r.node_seq() == self.node_seq(),
            r.edge_seq() == self.edge_seq(),
            r.preview() == self.preview(),
            r.speed() == speed_ms,
    {
        Flow { animation_speed_ms: speed_ms, ..self }
    }

    /// Sets the connection mode.
    pub fn with_connection_mode(self, mode: ConnectionMode) -> (r: Self)
        ensures
            r == self.set_connection_mode(mode),
            r.settings() == (Settings { connection_mode: mode, ..self.settings() }),
            r.snapshot_node_ids() == self.snapshot_node_ids(),
            r.snapshot_edge_ids() == self.snapshot_edge_ids(),
            r.node_seq() == self.node_seq(),
            r.edge_seq() == self.edge_seq(),
            r.preview() == self.preview(),
            r.mode() == mode,
    {
        Flow { connection_mode: mode, ..self }
    }

    /// Sets whether multi-select mode is active.
    pub fn with_multi_select_mode(self, enabled: bool) -> (r: Self)
        ensures
            r == self.set_multi_select_mode(enabled),
            r.settings() == (Settings { multi_select_mode: enabled, ..self.settings() }),
            r.snapshot_node_ids() == self.snapshot_node_ids(),
            r.snapshot_edge_ids() == self.snapshot_edge_ids(),
            r.node_seq() == self.node_seq(),
            r.edge_seq() == self.edge_seq(),
            r.preview() == self.preview(),
            r.multi_select() == enabled,
    {
        Flow { multi_select_mode: enabled, ..self }
    }

    /// Sets whether interaction mutations are locked.
    pub fn with_locked(self, locked: bool) -> (r: Self)
        ensures
            r == self.set_locked(locked),
            r.settings() == (Settings { locked: locked, ..self.settings() }),
            r.snapshot_node_ids() == self.snapshot_node_ids(),
            r.snapshot_edge_ids() == self.snapshot_edge_ids(),
            r.node_seq() == self.node_seq(),
            r.edge_seq() == self.edge_seq(),
            r.preview() == self.preview(),
            r.is_locked() == locked,
    {
        Flow { locked: locked, ..self }
    }

    /// Sets whether edges are reconnectable by default.
    pub fn with_edges_reconnectable(self, reconnectable: bool) -> (r: Self)
        ensures
            r == self.set_edges_reconnectable(reconnectable),
            r.settings() == (Settings { edges_reconnectable: reconnectable, ..self.settings() }),
            r.snapshot_node_ids() == self.snapshot_node_ids(),
            r.snapshot_edge_ids() == self.snapshot_edge_ids(),
            r.reconnect_default() == reconnectable,
            r.node_seq() == self.node_seq(),
            r.edge_seq() == self.edge_seq(),
            r.preview() == self.preview(),
    {
        Flow { edges_reconnectable: reconnectable, ..self }
    }

    /// Sets whether the viewport auto-pans when dragging a node near the canvas edge.
    pub fn with_auto_pan_on_node_drag(self, enabled: bool) -> (r: Self)
        ensures
            r == self.set_auto_pan_on_node_drag(enabled),
            r.settings() == (Settings { auto_pan_on_node_drag: enabled, ..self.settings() }),
            r.snapshot_node_ids() == self.snapshot_node_ids(),
            r.snapshot_edge_ids() == self.snapshot_edge_ids(),
            r.node_seq() == self.node_seq(),
            r.edge_seq() == self.edge_seq(),
            r.preview() == self.preview(),
    {
        Flow { auto_pan_on_node_drag: enabled, ..self }
    }

    /// Sets what the viewport does when keyboard navigation changes the selection.
    pub fn with_selection_reveal(self, reveal: SelectionReveal) -> (r: Self)
        ensures
            r == self.set_selection_reveal(reveal),
            r.settings() == (Settings { selection_reveal: reveal, ..self.settings() }),
            r.snapshot_node_ids() == self.snapshot_node_ids(),
            r.snapshot_edge_ids() == self.snapshot_edge_ids(),
            r.node_seq() == self.node_seq(),
            r.edge_seq() == self.edge_seq(),
            r.preview() == self.preview(),
    {
        Flow { selection_reveal: reveal, ..self }
    }

    /// Sets whether the viewport auto-pans when dragging a connection near the canvas edge.
    pub fn with_auto_pan_on_connect(self, enabled: bool) -> (r: Self)
        ensures
            r == self.set_auto_pan_on_connect(enabled),
            r.settings() == (Settings { auto_pan_on_connect: enabled, ..self.settings() }),
            r.snapshot_node_ids() == self.snapshot_node_ids(),
            r.snapshot_edge_ids() == self.snapshot_edge_ids(),
            r.node_seq() == self.node_seq(),
            r.edge_seq() == self.edge_seq(),
            r.preview() == self.preview(),
    {
        Flow { auto_pan_on_connect: enabled, ..self }
    }

    /// Sets whether selected nodes are ordered above non-selected nodes.
    pub fn with_elevate_nodes_on_select(self, elevate: bool) -> (r: Self)
        ensures
            r == self.set_elevate_nodes_on_select(elevate),
            r.settings() == (Settings { elevate_nodes_on_select: elevate, ..self.settings() }),
            r.snapshot_node_ids() == self.snapshot_node_ids(),
            r.snapshot_edge_ids() == self.snapshot_edge_ids(),
            r.node_seq() == self.node_seq(),
            r.edge_seq() == self.edge_seq(),
            r.preview() == self.preview(),
            r.elevates() == elevate,
    {
        Flow { elevate_nodes_on_select: elevate, ..self }
    }

    /// Creates a new empty flow.
    pub fn new() -> (r: Self)
        ensures
            r.wf(),
            r.node_seq() == Seq::<Node<N>>::empty(),
            r.edge_seq() == Seq::<Edge<E>>::empty(),
            r.has_default_settings(),
            r.snapshot_node_ids().len() == 0,
            r.snapshot_edge_ids().len() == 0,
            r.preview() is None,
    {
        Flow {
            nodes: Vec::new(),
            edges: Vec::new(),
            select_nodes_on_drag: true,
            deselect_on_drag: true,
            selection_on_drag: false,
            deselect_on_pane_click: true,
            multi_select_mode: false,
            animation_elapsed_ms: 0,
            animation_speed_ms: DEFAULT_ANIMATION_SPEED_MS,
            connection_mode: ConnectionMode::Strict,
            locked: false,
            edges_reconnectable: true,
            auto_pan_on_node_drag: true,
            auto_pan_on_connect: true,
            selection_reveal: SelectionReveal::EnsureVisible,
            elevate_nodes_on_select: true,
            edge_preview: None,
            prev_selection_node_ids: Vec::new(),
            prev_selection_edge_ids: Vec::new(),
        }
    }

    /// Creates a flow with the given nodes and edges.
    ///
    /// Fails with the first problem found, in this order: a duplicate node ID,
    /// a duplicate edge ID, then each edge in turn (a self-loop, a missing
    /// source, a missing target), then each node in turn (a missing parent,
    /// ambiguous or duplicate handle IDs).
    pub fn with_graph(nodes: Vec<Node<N>>, edges: Vec<Edge<E>>) -> (r: Result<Self, Error>)
        ensures
            match graph_problem(nodes@, edges@) {
                None => r matches Ok(f) && f.wf() && f.node_seq() == nodes@ && f.edge_seq() == edges@
                    && f.has_default_settings() && f.snapshot_matches_selection() && f.preview() is None,
                Some(p) => r matches Err(e) && reports(e, p),
            },
    {
        validate_graph(&nodes, &edges)?;
        proof {
            lemma_no_problem_wf(nodes@, edges@);
        }
        let mut state = Self::new();
        state.nodes = nodes;
        state.edges = edges;
        state.snapshot_selection();
        Ok(state)
    }
}

/// Toggling the lock flips `locked` and changes nothing else.
pub proof fn lemma_lock_toggled<N, E>(f: Flow<N, E>)
    ensures
        f.lock_toggled().settings() == (Settings { locked: !f.settings().locked, ..f.settings() }),
        f.lock_toggled().node_seq() == f.node_seq(),
        f.lock_toggled().edge_seq() == f.edge_seq(),
        f.lock_toggled().preview() == f.preview(),
        f.lock_toggled().snapshot_node_ids() == f.snapshot_node_ids(),
        f.lock_toggled().snapshot_edge_ids() == f.snapshot_edge_ids(),
{
}

/// Toggling multi-select mode flips it and changes nothing else.
pub proof fn lemma_multi_select_toggled<N, E>(f: Flow<N, E>)
    ensures
        f.multi_select_toggled().settings() == (Settings { multi_select_mode: !f.settings().multi_select_mode, ..f.settings() }),
        f.multi_select_toggled().node_seq() == f.node_seq(),
        f.multi_select_toggled().edge_seq() == f.edge_seq(),
        f.multi_select_toggled().preview() == f.preview(),
        f.multi_select_toggled().snapshot_node_ids() == f.snapshot_node_ids(),
        f.multi_select_toggled().snapshot_edge_ids() == f.snapshot_edge_ids(),
{
}

/// Setting the animation clock changes nothing else.
pub proof fn lemma_with_clock<N, E>(f: Flow<N, E>, clock: u64)
    ensures
        f.with_clock(clock).settings() == (Settings { animation_clock: clock, ..f.settings() }),
        f.with_clock(clock).node_seq() == f.node_seq(),
        f.with_clock(clock).edge_seq() == f.edge_seq(),
        f.with_clock(clock).preview() == f.preview(),
        f.with_clock(clock).snapshot_node_ids() == f.snapshot_node_ids(),
        f.with_clock(clock).snapshot_edge_ids() == f.snapshot_edge_ids(),
{
}

} // verus!
