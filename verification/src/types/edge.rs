//! Edges connecting nodes, their reconnection policy and end markers.

use vstd::prelude::*;
use crate::strs::{owned, string_is};
use crate::types::handle::{opposite_side, side_name_spec, HandlePosition, HandleType};

verus! {

/// Controls which ends of an edge can be reconnected by dragging.
///
/// A per-edge setting that can override the graph-wide default.
#[derive(Debug, Clone, Copy, PartialEq, Eq, Hash, Structural)]
pub enum Reconnectable {
    /// Use the graph-wide setting.
    Inherit,
    /// Both source and target ends can be reconnected.
    Both,
    /// Only the source end can be reconnected.
    Source,
    /// Only the target end can be reconnected.
    Target,
    /// Cannot be reconnected (overrides the graph-wide setting).
    Disabled,
}

/// Whether `r` allows reconnecting the end of type `t`.
pub open spec fn allows_spec(r: Reconnectable, t: HandleType, global_default: bool) -> bool {
    match r {
        Reconnectable::Inherit => global_default,
        Reconnectable::Both => true,
        Reconnectable::Source => t == HandleType::Source,
        Reconnectable::Target => t == HandleType::Target,
        Reconnectable::Disabled => false,
    }
}

impl Default for Reconnectable {
    fn default() -> (r: Self)
        ensures
            r == Reconnectable::Inherit,
    {
        Reconnectable::Inherit
    }
}

impl Reconnectable {
    /// Whether this setting allows reconnecting the given handle type,
    /// falling back to the global default when `Inherit`.
    pub fn allows(&self, handle_type: HandleType, global_default: bool) -> (r: bool)
        ensures
            r == allows_spec(*self, handle_type, global_default),
    {
        match self {
            Reconnectable::Inherit => global_default,
            Reconnectable::Both => true,
            Reconnectable::Source => handle_type == HandleType::Source,
            Reconnectable::Target => handle_type == HandleType::Target,
            Reconnectable::Disabled => false,
        }
    }
}

/// An edge connecting two nodes in the flow graph, carrying content `E`.
#[derive(Debug, Clone)]
pub struct Edge<E> {
    /// Unique identifier for this edge.
    pub id: String,
    /// ID of the source node.
    pub source: String,
    /// ID of the target node.
    pub target: String,
    /// ID of the source handle; `None` uses the node's default source handle.
    pub source_handle: Option<String>,
    /// ID of the target handle; `None` uses the node's default target handle.
    pub target_handle: Option<String>,
    /// Content associated with this edge.
    pub content: E,
    /// Whether the edge is hidden.
    pub hidden: bool,
    /// Whether the edge can be deleted.
    pub deletable: bool,
    /// Whether the edge can be selected.
    pub selectable: bool,
    /// Whether the edge is currently selected.
    pub selected: bool,
    /// Whether the edge is animated (marching ants pattern).
    pub animated: bool,
    /// Optional label to display on the edge.
    pub label: Option<String>,
    /// Whether this edge's endpoints can be reconnected by dragging.
    pub reconnectable: Reconnectable,
}

impl<E: Default> Edge<E> {
    /// Creates a new edge with default content.
    pub fn new(id: &str, source: &str, target: &str) -> (r: Self)
        ensures
            r.id@ == id@,
            r.source@ == source@,
            r.target@ == target@,
            r.source_handle is None,
            r.target_handle is None,
            !r.hidden,
            r.deletable,
            r.selectable,
            !r.selected,
            !r.animated,
            r.label is None,
            r.reconnectable == Reconnectable::Inherit,
            call_ensures(E::default, (), r.content),
    {
        Edge {
            id: owned(id),
            source: owned(source),
            target: owned(target),
            source_handle: None,
            target_handle: None,
            content: E::default(),
            hidden: false,
            deletable: true,
            selectable: true,
            selected: false,
            animated: false,
            label: None,
            reconnectable: Reconnectable::Inherit,
        }
    }
}

impl<E> Edge<E> {
    /// Sets the edge content.
    pub fn with_content(self, content: E) -> (r: Self)
        ensures
            r == (Edge { content, ..self }),
    {
        Edge { content, ..self }
    }

    /// Sets the source handle ID.
    pub fn with_source_handle(self, handle: Option<String>) -> (r: Self)
        ensures
            r == (Edge { source_handle: handle, ..self }),
    {
        Edge { source_handle: handle, ..self }
    }

    /// Sets the target handle ID.
    pub fn with_target_handle(self, handle: Option<String>) -> (r: Self)
        ensures
            r == (Edge { target_handle: handle, ..self }),
    {
        Edge { target_handle: handle, ..self }
    }

    /// Attaches the edge's source to the handle named after a side of its source node.
    pub fn with_source_side(self, side: HandlePosition) -> (r: Self)
        ensures
            r.source_handle is Some,
            r.source_handle->0@ == side_name_spec(side),
            r == (Edge { source_handle: r.source_handle, ..self }),
    {
        let name = owned(side.side_name());
        Edge { source_handle: Some(name), ..self }
    }

    /// Attaches the edge's target to the handle named after a side of its target node.
    pub fn with_target_side(self, side: HandlePosition) -> (r: Self)
        ensures
            r.target_handle is Some,
            r.target_handle->0@ == side_name_spec(side),
            r == (Edge { target_handle: r.target_handle, ..self }),
    {
        let name = owned(side.side_name());
        Edge { target_handle: Some(name), ..self }
    }

    /// Sets whether the edge is hidden.
    pub fn with_hidden(self, hidden: bool) -> (r: Self)
        ensures
            r == (Edge { hidden, ..self }),
    {
        Edge { hidden, ..self }
    }

    /// Sets whether the edge is deletable.
    pub fn with_deletable(self, deletable: bool) -> (r: Self)
        ensures
            r == (Edge { deletable, ..self }),
    {
        Edge { deletable, ..self }
    }

    /// Sets whether the edge is selectable.
    pub fn with_selectable(self, selectable: bool) -> (r: Self)
        ensures
            r == (Edge { selectable, ..self }),
    {
        Edge { selectable, ..self }
    }

    /// Sets whether the edge is selected.
    pub fn with_selected(self, selected: bool) -> (r: Self)
        ensures
            r == (Edge { selected, ..self }),
    {
        Edge { selected, ..self }
    }

    /// Sets whether the edge is animated (marching ants pattern).
    pub fn with_animated(self, animated: bool) -> (r: Self)
        ensures
            r == (Edge { animated, ..self }),
    {
        Edge { animated, ..self }
    }

    /// Sets the edge label.
    pub fn with_label(self, label: &str) -> (r: Self)
        ensures
            r.label is Some,
            r.label->0@ == label@,
            r == (Edge { label: r.label, ..self }),
    {
        Edge { label: Some(owned(label)), ..self }
    }

    /// Sets whether this edge's endpoints can be reconnected by dragging.
    pub fn with_reconnectable(self, reconnectable: Reconnectable) -> (r: Self)
        ensures
            r == (Edge { reconnectable, ..self }),
    {
        Edge { reconnectable, ..self }
    }

    /// Returns true if this edge connects the given nodes (in either direction).
    pub fn connects(&self, node_a: &str, node_b: &str) -> (r: bool)
        ensures
            r == ((self.source@ == node_a@ && self.target@ == node_b@)
                || (self.source@ == node_b@ && self.target@ == node_a@)),
    {
        (string_is(&self.source, node_a) && string_is(&self.target, node_b))
            || (string_is(&self.source, node_b) && string_is(&self.target, node_a))
    }

    /// Returns true if this edge connects the given nodes in the specified direction.
    pub fn connects_directed(&self, source: &str, target: &str) -> (r: bool)
        ensures
            r == (self.source@ == source@ && self.target@ == target@),
    {
        string_is(&self.source, source) && string_is(&self.target, target)
    }

    /// Returns true if this edge originates from the given node.
    pub fn is_from(&self, node_id: &str) -> (r: bool)
        ensures
            r == (self.source@ == node_id@),
    {
        string_is(&self.source, node_id)
    }

    /// Returns true if this edge terminates at the given node.
    pub fn is_to(&self, node_id: &str) -> (r: bool)
        ensures
            r == (self.target@ == node_id@),
    {
        string_is(&self.target, node_id)
    }

    /// Maps the content to a new type, keeping every other field.
    pub fn map_content<E2, F: FnOnce(E) -> E2>(self, f: F) -> (r: Edge<E2>)
        requires
            f.requires((self.content,)),
        ensures
            f.ensures((self.content,), r.content),
            r.id == self.id,
            r.source == self.source,
            r.target == self.target,
            r.source_handle == self.source_handle,
            r.target_handle == self.target_handle,
            r.hidden == self.hidden,
            r.deletable == self.deletable,
            r.selectable == self.selectable,
            r.selected == self.selected,
            r.animated == self.animated,
            r.label == self.label,
            r.reconnectable == self.reconnectable,
    {
        Edge {
            id: self.id,
            source: self.source,
            target: self.target,
            source_handle: self.source_handle,
            target_handle: self.target_handle,
            content: f(self.content),
            hidden: self.hidden,
            deletable: self.deletable,
            selectable: self.selectable,
            selected: self.selected,
            animated: self.animated,
            label: self.label,
            reconnectable: self.reconnectable,
        }
    }
}

/// Edge marker types for arrows and other decorations.
///
/// Arrow markers are direction-aware (they rotate with the handle side);
/// the other markers use fixed characters.
#[derive(Debug, Clone, Copy, PartialEq, Eq, Hash, Structural)]
pub enum EdgeMarker {
    /// Outline arrow marker (▷◁△▽), direction-aware.
    Arrow,
    /// Filled arrow marker (▶◀▲▼), direction-aware. The default.
    ArrowClosed,
    /// Circle marker (●).
    Circle,
    /// Diamond marker (◆).
    Diamond,
    /// Custom single-character marker.
    Custom(char),
    /// Custom direction-aware marker with one character per direction.
    CustomDirectional { left: char, right: char, top: char, bottom: char },
    /// No marker.
    Blank,
}

impl Default for EdgeMarker {
    fn default() -> (r: Self)
        ensures
            r == EdgeMarker::ArrowClosed,
    {
        EdgeMarker::ArrowClosed
    }
}

/// The character picked for a side: start markers use the side itself, end
/// markers its opposite (pointing into the handle).
pub open spec fn directional_spec(
    position: HandlePosition,
    is_start: bool,
    left: char,
    right: char,
    top: char,
    bottom: char,
) -> char {
    let pos = if is_start { position } else { opposite_side(position) };
    match pos {
        HandlePosition::Left => left,
        HandlePosition::Right => right,
        HandlePosition::Top => top,
        HandlePosition::Bottom => bottom,
    }
}

/// The character a marker draws at an end attached on side `position`.
pub open spec fn marker_char_spec(m: EdgeMarker, position: HandlePosition, is_start: bool) -> Option<char> {
    match m {
        EdgeMarker::Blank => None,
        EdgeMarker::Arrow => Some(directional_spec(position, is_start, '◁', '▷', '△', '▽')),
        EdgeMarker::ArrowClosed => Some(directional_spec(position, is_start, '◀', '▶', '▲', '▼')),
        EdgeMarker::Circle => Some('●'),
        EdgeMarker::Diamond => Some('◆'),
        EdgeMarker::Custom(ch) => Some(ch),
        EdgeMarker::CustomDirectional { left, right, top, bottom } =>
            Some(directional_spec(position, is_start, left, right, top, bottom)),
    }
}

impl EdgeMarker {
    /// Returns the character for this marker given the handle side, or `None`
    /// for `EdgeMarker::Blank`. Start markers point away from the source; end
    /// markers point into the target.
    pub fn char_for_position(self, position: HandlePosition, is_start: bool) -> (r: Option<char>)
        ensures
            r == marker_char_spec(self, position, is_start),
    {
        match self {
            EdgeMarker::Blank => None,
            EdgeMarker::Arrow => Some(select_directional(position, is_start, '◁', '▷', '△', '▽')),
            EdgeMarker::ArrowClosed => Some(select_directional(position, is_start, '◀', '▶', '▲', '▼')),
            EdgeMarker::Circle => Some('●'),
            EdgeMarker::Diamond => Some('◆'),
            EdgeMarker::Custom(ch) => Some(ch),
            EdgeMarker::CustomDirectional { left, right, top, bottom } =>
                Some(select_directional(position, is_start, left, right, top, bottom)),
        }
    }
}

/// Selects a direction-aware character based on handle side.
///
/// Start markers use the side directly; end markers use the opposite side.
pub fn select_directional(
    position: HandlePosition,
    is_start: bool,
    left: char,
    right: char,
    top: char,
    bottom: char,
) -> (r: char)
    ensures
        r == directional_spec(position, is_start, left, right, top, bottom),
{
    let pos = if is_start { position } else { position.opposite() };
    match pos {
        HandlePosition::Left => left,
        HandlePosition::Right => right,
        HandlePosition::Top => top,
        HandlePosition::Bottom => bottom,
    }
}

/// A start marker and an end marker on the same side point opposite ways:
/// an end marker on side `p` draws what a start marker on the opposite side draws.
pub proof fn lemma_end_marker_is_start_marker_of_opposite(m: EdgeMarker, p: HandlePosition)
    ensures
        marker_char_spec(m, p, false) == marker_char_spec(m, opposite_side(p), true),
{
}

} // verus!
