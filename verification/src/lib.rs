//! Verified core of a node-graph editor: graph topology, selection,
//! connection rules, key bindings, pointer gestures and z-ordering.

pub mod actions;
pub mod error;
pub mod events;
pub mod input;
pub mod layout;
pub mod state;
pub mod strs;
pub mod types;

pub use actions::{default_controls_key_binding, default_flow_key_binding, ControlsAction, FlowAction};
pub use error::Error;
pub use events::{EventResponse, FlowEvent};
pub use input::{KeyCode, KeyEvent, Modifiers, MouseButton, MouseEvent, MouseEventKind};
pub use layout::{IntoEdge, LayoutDirection};
pub use state::apply::{ActionStep, ConnectionDrag, ViewWork};
pub use state::gesture::{Gesture, MouseHit, NodeDrag, Pick, Press};
pub use state::preview::EdgePreview;
pub use state::route::MouseRoute;
pub use state::selection::Direction;
pub use state::Flow;
pub use types::{
    select_directional, Connection, ConnectionMode, Edge, EdgeMarker, Handle, HandlePosition,
    HandleType, Node, PanMode, Reconnectable, SelectionReveal,
};
