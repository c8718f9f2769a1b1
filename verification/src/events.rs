//! Events that interactions produce, and the responses of the handlers.

use vstd::prelude::*;
use crate::state::selection::strings_view;
use crate::types::{Connection, HandleType};

verus! {

/// A meaningful interaction with the graph.
#[derive(Debug, PartialEq, Eq)]
pub enum FlowEvent {
    /// A node was clicked.
    NodeClicked {
        /// The clicked node's ID.
        node_id: String,
    },
    /// An edge was clicked.
    EdgeClicked {
        /// The clicked edge's ID.
        edge_id: String,
    },
    /// A node was right-clicked; selection is left alone.
    NodeContextMenu {
        /// The right-clicked node's ID.
        node_id: String,
    },
    /// An edge was right-clicked; selection is left alone.
    EdgeContextMenu {
        /// The right-clicked edge's ID.
        edge_id: String,
    },
    /// A connection drag started from a handle.
    ConnectionStarted {
        /// The start node's ID.
        node_id: String,
        /// The start handle's ID; `None` is the node's only handle of its type.
        handle_id: Option<String>,
    },
    /// A connection drag completed; the edge is not added automatically.
    ConnectionCompleted(Connection),
    /// Connection creation was cancelled.
    ConnectionCancelled,
    /// An edge reconnection started from one of its ends.
    ReconnectionStarted {
        /// The edge being reconnected.
        edge_id: String,
        /// Which end is being dragged.
        handle_type: HandleType,
    },
    /// An edge reconnection completed; the edge is not updated automatically.
    ReconnectionCompleted {
        /// The edge that was reconnected.
        edge_id: String,
        /// The connection before.
        old_connection: Connection,
        /// The connection after.
        new_connection: Connection,
    },
    /// An edge reconnection was cancelled.
    ReconnectionCancelled {
        /// The edge whose reconnection was cancelled.
        edge_id: String,
    },
    /// A node drag started.
    NodeDragStarted {
        /// The dragged node's ID.
        node_id: String,
    },
    /// A node is being dragged.
    NodeDragged {
        /// The dragged node's ID.
        node_id: String,
    },
    /// A node drag finished.
    NodeDragEnded {
        /// The dragged node's ID.
        node_id: String,
    },
    /// A node resize started.
    NodeResizeStarted {
        /// The node being resized.
        node_id: String,
    },
    /// A node is being resized.
    NodeResized {
        /// The node being resized.
        node_id: String,
    },
    /// A node resize finished.
    NodeResizeEnded {
        /// The node that was resized.
        node_id: String,
    },
    /// The selection changed.
    SelectionChanged {
        /// The selected node IDs after the change.
        node_ids: Vec<String>,
        /// The selected edge IDs after the change.
        edge_ids: Vec<String>,
    },
    /// Elements were deleted. Edges removed because their node was are not listed.
    Deleted {
        /// IDs of deleted nodes.
        node_ids: Vec<String>,
        /// IDs of deleted edges.
        edge_ids: Vec<String>,
    },
}

/// The event is a selection change reporting exactly the given IDs.
pub open spec fn reports_selection(ev: FlowEvent, nodes: Seq<Seq<char>>, edges: Seq<Seq<char>>) -> bool {
    ev matches FlowEvent::SelectionChanged { node_ids, edge_ids }
        && strings_view(node_ids@) == nodes && strings_view(edge_ids@) == edges
}

/// The event reports the deletion of exactly the given IDs.
pub open spec fn reports_deletion(ev: FlowEvent, nodes: Seq<Seq<char>>, edges: Seq<Seq<char>>) -> bool {
    ev matches FlowEvent::Deleted { node_ids, edge_ids }
        && strings_view(node_ids@) == nodes && strings_view(edge_ids@) == edges
}

/// The response of an action or input handler.
#[derive(Debug, PartialEq, Eq)]
pub enum EventResponse {
    /// The input was not consumed: fall through to the next handler.
    NotHandled,
    /// The input was consumed and produced no event.
    Handled,
    /// The input was consumed and produced events.
    Event(Vec<FlowEvent>),
}

/// The events a response carries: none unless it is `Event`.
pub open spec fn response_events(r: EventResponse) -> Seq<FlowEvent> {
    match r {
        EventResponse::Event(v) => v@,
        _ => Seq::empty(),
    }
}

impl EventResponse {
    /// The events, or none for a response without events.
    pub fn events(&self) -> (r: &[FlowEvent])
        ensures
            r@ == response_events(*self),
    {
        match self {
            EventResponse::Event(v) => v.as_slice(),
            _ => &[],
        }
    }

    /// Consumes the response and returns its events, or none.
    pub fn into_events(self) -> (r: Vec<FlowEvent>)
        ensures
            r@ == response_events(self),
    {
        match self {
            EventResponse::Event(v) => v,
            _ => Vec::new(),
        }
    }
}

} // verus!
