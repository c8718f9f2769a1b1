//! Core type definitions: handles, nodes, connections, edges and viewport policies.

pub mod connection;
pub mod defaults;
pub mod edge;
pub mod handle;
pub mod node;
pub mod viewport;

pub use connection::{Connection, ConnectionMode};
pub use edge::{select_directional, Edge, EdgeMarker, Reconnectable};
pub use handle::{HandlePosition, HandleType};
pub use node::{Handle, Node};
pub use viewport::{PanMode, SelectionReveal};
