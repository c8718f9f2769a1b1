//! Errors that can occur when working with flow graphs.

use vstd::prelude::*;

verus! {

/// Errors that can occur when working with flow graphs.
#[derive(Debug)]
pub enum Error {
    /// Edge references a non-existent node.
    InvalidEdgeReference {
        /// The ID of the edge with the invalid reference.
        edge_id: String,
        /// The node ID that was not found.
        node_id: String,
    },
    /// Node references a non-existent parent.
    InvalidParentReference {
        /// The ID of the node with the invalid parent reference.
        node_id: String,
        /// The parent ID that was not found.
        parent_id: String,
    },
    /// A parent assignment would make a node its own ancestor.
    CyclicParent {
        /// The node being re-parented.
        node_id: String,
        /// The proposed parent, which sits below `node_id` in the tree.
        parent_id: String,
    },
    /// Duplicate node ID.
    DuplicateNodeId {
        /// The duplicate node ID.
        node_id: String,
    },
    /// Duplicate edge ID.
    DuplicateEdgeId {
        /// The duplicate edge ID.
        edge_id: String,
    },
    /// Self-referential edge (source equals target).
    SelfReferentialEdge {
        /// The ID of the self-referential edge.
        edge_id: String,
        /// The node ID that is both source and target.
        node_id: String,
    },
    /// Node not found.
    NodeNotFound {
        /// The ID of the node that was not found.
        node_id: String,
    },
    /// Edge not found.
    EdgeNotFound {
        /// The ID of the edge that was not found.
        edge_id: String,
    },
    /// Multiple handles of the same type without IDs.
    AmbiguousHandles {
        /// The ID of the node with ambiguous handles.
        node_id: String,
        /// The handle type with ambiguity (`"source"` or `"target"`).
        handle_type: &'static str,
        /// Number of handles without IDs.
        count: usize,
    },
    /// Duplicate handle ID within the same type.
    DuplicateHandleId {
        /// The ID of the node with duplicate handle IDs.
        node_id: String,
        /// The handle type with the duplicate (`"source"` or `"target"`).
        handle_type: &'static str,
        /// The duplicate handle ID.
        handle_id: String,
    },
}

} // verus!
