//! Nodes and their handles, as far as the graph's topology sees them.

use vstd::prelude::*;
use crate::strs::{opt_chars, owned};
use crate::types::handle::{HandlePosition, HandleType};

verus! {

/// A handle definition on a node: a connection point where edges attach.
///
/// `id: None` means "the only handle of this type on this node".
#[derive(Debug, Clone)]
pub struct Handle {
    /// Identifier of this handle within the node (per handle type).
    pub id: Option<String>,
    /// The side of the node where the handle is positioned.
    pub position: HandlePosition,
    /// Whether this is a source or target handle.
    pub handle_type: HandleType,
    /// Whether this handle can participate in connections at all.
    pub connectable: bool,
    /// Whether connections can start from this handle.
    pub connectable_start: bool,
    /// Whether connections can end on this handle.
    pub connectable_end: bool,
    /// Whether this handle is hidden.
    pub hidden: bool,
}

impl Handle {
    /// Creates a new handle with default settings and no ID.
    pub fn new(position: HandlePosition, handle_type: HandleType) -> (r: Self)
        ensures
            r.id is None,
            r.position == position,
            r.handle_type == handle_type,
            r.connectable && r.connectable_start && r.connectable_end,
            !r.hidden,
    {
        Handle {
            id: None,
            position,
            handle_type,
            connectable: true,
            connectable_start: true,
            connectable_end: true,
            hidden: false,
        }
    }

    /// Creates a source handle at the given position.
    pub fn source(position: HandlePosition) -> (r: Self)
        ensures
            r.id is None,
            r.position == position,
            r.handle_type == HandleType::Source,
            r.connectable && r.connectable_start && r.connectable_end,
            !r.hidden,
    {
        Self::new(position, HandleType::Source)
    }

    /// Creates a target handle at the given position.
    pub fn target(position: HandlePosition) -> (r: Self)
        ensures
            r.id is None,
            r.position == position,
            r.handle_type == HandleType::Target,
            r.connectable && r.connectable_start && r.connectable_end,
            !r.hidden,
    {
        Self::new(position, HandleType::Target)
    }

    /// Sets the handle ID.
    pub fn with_id(self, id: &str) -> (r: Self)
        ensures
            opt_chars(r.id) == Some(id@),
            r == (Handle { id: r.id, ..self }),
    {
        Handle { id: Some(owned(id)), ..self }
    }

    /// Sets whether this handle can participate in connections.
    pub fn with_connectable(self, connectable: bool) -> (r: Self)
        ensures
            r == (Handle { connectable, ..self }),
    {
        Handle { connectable, ..self }
    }

    /// Sets whether connections can start from this handle.
    pub fn with_connectable_start(self, connectable_start: bool) -> (r: Self)
        ensures
            r == (Handle { connectable_start, ..self }),
    {
        Handle { connectable_start, ..self }
    }

    /// Sets whether connections can end on this handle.
    pub fn with_connectable_end(self, connectable_end: bool) -> (r: Self)
        ensures
            r == (Handle { connectable_end, ..self }),
    {
        Handle { connectable_end, ..self }
    }

    /// Sets whether this handle is hidden.
    pub fn with_hidden(self, hidden: bool) -> (r: Self)
        ensures
            r == (Handle { hidden, ..self }),
    {
        Handle { hidden, ..self }
    }
}

/// A node in the flow graph, carrying content `N`.
///
/// Geometry (position, size, origin, extent) is not part of this type: the
/// topology, selection and connection rules never read it.
#[derive(Debug, Clone)]
pub struct Node<N> {
    /// Unique identifier for this node.
    pub id: String,
    /// Content associated with this node.
    pub content: N,
    /// Whether the node is hidden.
    pub hidden: bool,
    /// Z-index for layering. Higher values render on top.
    pub z_index: i32,
    /// Whether the node is currently selected.
    pub selected: bool,
    /// Whether the node can be selected.
    pub selectable: bool,
    /// Whether the node can be deleted.
    pub deletable: bool,
    /// Whether the node can be dragged.
    pub draggable: bool,
    /// Whether the node can be resized.
    pub resizable: bool,
    /// Master switch for the connectability of all of this node's handles.
    pub connectable: bool,
    /// Optional parent node ID for hierarchical graphs.
    pub parent_id: Option<String>,
    /// Whether to expand the parent to fit this node.
    pub expand_parent: bool,
    /// Whether the node blocks content behind it.
    pub opaque: bool,
    /// Handle definitions for this node.
    pub handles: Vec<Handle>,
    /// Default position for source handles if none is defined.
    pub source_position: HandlePosition,
    /// Default position for target handles if none is defined.
    pub target_position: HandlePosition,
}

impl<N> Node<N> {
    /// Creates a new node with the given ID and content and default settings.
    pub fn new(id: &str, content: N) -> (r: Self)
        ensures
            r.id@ == id@,
            r.content == content,
            !r.hidden,
            r.z_index == 0,
            !r.selected,
            r.selectable,
            r.deletable,
            r.draggable,
            !r.resizable,
            r.connectable,
            r.parent_id is None,
            !r.expand_parent,
            r.opaque,
            r.handles@.len() == 0,
            r.source_position == HandlePosition::Right,
            r.target_position == HandlePosition::Left,
    {
        Node {
            id: owned(id),
            content,
            hidden: false,
            z_index: 0,
            selected: false,
            selectable: true,
            deletable: true,
            draggable: true,
            resizable: false,
            connectable: true,
            parent_id: None,
            expand_parent: false,
            opaque: true,
            handles: Vec::new(),
            source_position: HandlePosition::Right,
            target_position: HandlePosition::Left,
        }
    }

    /// Sets whether the node is hidden.
    pub fn with_hidden(self, hidden: bool) -> (r: Self)
        ensures
            r == (Node { hidden, ..self }),
    {
        Node { hidden, ..self }
    }

    /// Sets the z-index for layering.
    pub fn with_z_index(self, z_index: i32) -> (r: Self)
        ensures
            r == (Node { z_index, ..self }),
    {
        Node { z_index, ..self }
    }

    /// Sets whether the node is selected.
    pub fn with_selected(self, selected: bool) -> (r: Self)
        ensures
            r == (Node { selected, ..self }),
    {
        Node { selected, ..self }
    }

    /// Sets whether the node is selectable.
    pub fn with_selectable(self, selectable: bool) -> (r: Self)
        ensures
            r == (Node { selectable, ..self }),
    {
        Node { selectable, ..self }
    }

    /// Sets whether the node is deletable.
    pub fn with_deletable(self, deletable: bool) -> (r: Self)
        ensures
            r == (Node { deletable, ..self }),
    {
        Node { deletable, ..self }
    }

    /// Sets whether the node is draggable.
    pub fn with_draggable(self, draggable: bool) -> (r: Self)
        ensures
            r == (Node { draggable, ..self }),
    {
        Node { draggable, ..self }
    }

    /// Sets whether the node can be resized.
    pub fn with_resizable(self, resizable: bool) -> (r: Self)
        ensures
            r == (Node { resizable, ..self }),
    {
        Node { resizable, ..self }
    }

    /// Sets whether this node's handles can participate in connections.
    pub fn with_connectable(self, connectable: bool) -> (r: Self)
        ensures
            r == (Node { connectable, ..self }),
    {
        Node { connectable, ..self }
    }

    /// Sets the parent node ID.
    pub fn with_parent(self, parent_id: &str) -> (r: Self)
        ensures
            opt_chars(r.parent_id) == Some(parent_id@),
            r == (Node { parent_id: r.parent_id, ..self }),
    {
        Node { parent_id: Some(owned(parent_id)), ..self }
    }

    /// Sets whether to expand the parent node to fit this child.
    pub fn with_expand_parent(self, expand_parent: bool) -> (r: Self)
        ensures
            r == (Node { expand_parent, ..self }),
    {
        Node { expand_parent, ..self }
    }

    /// Sets whether the node blocks content behind it.
    pub fn with_opaque(self, opaque: bool) -> (r: Self)
        ensures
            r == (Node { opaque, ..self }),
    {
        Node { opaque, ..self }
    }

    /// Sets the handles for this node.
    pub fn with_handles(self, handles: Vec<Handle>) -> (r: Self)
        ensures
            r == (Node { handles, ..self }),
    {
        Node { handles, ..self }
    }

    /// Adds a handle to this node.
    pub fn add_handle(self, handle: Handle) -> (r: Self)
        ensures
            r.handles@ == self.handles@.push(handle),
            r == (Node { handles: r.handles, ..self }),
    {
        let mut handles = self.handles;
        handles.push(handle);
        Node { handles, ..self }
    }

    /// Sets the default source handle position.
    pub fn with_source_position(self, position: HandlePosition) -> (r: Self)
        ensures
            r == (Node { source_position: position, ..self }),
    {
        Node { source_position: position, ..self }
    }

    /// Sets the default target handle position.
    pub fn with_target_position(self, position: HandlePosition) -> (r: Self)
        ensures
            r == (Node { target_position: position, ..self }),
    {
        Node { target_position: position, ..self }
    }

    /// Materializes the default handles into `handles` if it is empty.
    pub fn ensure_explicit_handles(&mut self)
        ensures
            old(self).handles@.len() == 0 ==> final(self).handles@ == seq![
                Handle::new_spec(old(self).source_position, HandleType::Source),
                Handle::new_spec(old(self).target_position, HandleType::Target),
            ],
            old(self).handles@.len() != 0 ==> final(self).handles@ == old(self).handles@,
            *final(self) == (Node { handles: final(self).handles, ..*old(self) }),
    {
        if self.handles.len() == 0 {
            let mut hs = Vec::new();
            hs.push(Handle::source(self.source_position));
            hs.push(Handle::target(self.target_position));
            self.handles = hs;
            proof {
                assert(self.handles@ =~= seq![
                    Handle::new_spec(old(self).source_position, HandleType::Source),
                    Handle::new_spec(old(self).target_position, HandleType::Target),
                ]);
            }
        }
    }
}

impl Handle {
    /// The handle that [`Handle::new`] creates.
    pub open spec fn new_spec(position: HandlePosition, handle_type: HandleType) -> Handle {
        Handle {
            id: None,
            position,
            handle_type,
            connectable: true,
            connectable_start: true,
            connectable_end: true,
            hidden: false,
        }
    }
}

} // verus!
