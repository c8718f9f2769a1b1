//! Which handler a mouse event goes to, decided before any coordinates are
//! read: a locked flow only pans, zooms and answers context menus.

use vstd::prelude::*;
use crate::input::{MouseButton, MouseEventKind};
use crate::state::gesture::MouseHit;
use crate::state::Flow;

verus! {

/// What a mouse event asks of the canvas.
#[derive(Debug, Clone, Copy, PartialEq, Eq, Structural)]
pub enum MouseRoute {
    /// Start panning the viewport (a left press on a locked flow).
    StartPanning,
    /// Drop the gesture in progress without reporting it (a left release on
    /// a locked flow).
    DropGesture,
    /// A left press: a resize grip, a selection box, or a press on what was hit.
    LeftDown,
    /// Go on with the left-button gesture in progress.
    LeftDrag,
    /// Finish the left-button gesture in progress.
    LeftUp,
    /// A right press: hold the context menu of what was hit.
    RightDown,
    /// A right drag: maybe turn into a selection box.
    RightDrag,
    /// A right release: open the held context menu or finish the box.
    RightUp,
    /// Zoom in around the pointer.
    ZoomIn,
    /// Zoom out around the pointer.
    ZoomOut,
    /// Not handled.
    Ignore,
}

/// The route of a mouse event of kind `kind` on a flow that is `locked` or not.
pub open spec fn mouse_route(locked: bool, kind: MouseEventKind) -> MouseRoute {
    match kind {
        MouseEventKind::Down(MouseButton::Left) => if locked { MouseRoute::StartPanning } else { MouseRoute::LeftDown },
        MouseEventKind::Drag(MouseButton::Left) => MouseRoute::LeftDrag,
        MouseEventKind::Up(MouseButton::Left) => if locked { MouseRoute::DropGesture } else { MouseRoute::LeftUp },
        MouseEventKind::Down(MouseButton::Right) => MouseRoute::RightDown,
        MouseEventKind::Drag(MouseButton::Right) => MouseRoute::RightDrag,
        MouseEventKind::Up(MouseButton::Right) => MouseRoute::RightUp,
        MouseEventKind::ScrollUp => MouseRoute::ZoomIn,
        MouseEventKind::ScrollDown => MouseRoute::ZoomOut,
        _ => MouseRoute::Ignore,
    }
}

impl<N, E> Flow<N, E> {
    /// Routes a mouse event. On an unlocked flow the selection is recorded
    /// first, so that the handler can report a change against it; a locked
    /// flow is left as it is.
    pub fn route_mouse(&mut self, kind: MouseEventKind) -> (r: MouseRoute)
        ensures
            r == mouse_route(old(self).is_locked(), kind),
            final(self).same_config(old(self)),
            final(self).node_seq() == old(self).node_seq(),
            final(self).edge_seq() == old(self).edge_seq(),
            final(self).preview() == old(self).preview(),
            old(self).is_locked() ==> *final(self) == *old(self),
            !old(self).is_locked() ==> final(self).snapshot_matches_selection(),
    {
        let locked = self.locked;
        if !locked {
            self.snapshot_selection();
        }
        match kind {
            MouseEventKind::Down(MouseButton::Left) => if locked { MouseRoute::StartPanning } else { MouseRoute::LeftDown },
            MouseEventKind::Drag(MouseButton::Left) => MouseRoute::LeftDrag,
            MouseEventKind::Up(MouseButton::Left) => if locked { MouseRoute::DropGesture } else { MouseRoute::LeftUp },
            MouseEventKind::Down(MouseButton::Right) => MouseRoute::RightDown,
            MouseEventKind::Drag(MouseButton::Right) => MouseRoute::RightDrag,
            MouseEventKind::Up(MouseButton::Right) => MouseRoute::RightUp,
            MouseEventKind::ScrollUp => MouseRoute::ZoomIn,
            MouseEventKind::ScrollDown => MouseRoute::ZoomOut,
            _ => MouseRoute::Ignore,
        }
    }

    /// Whether a left press that hit `hit` starts a selection box: only on
    /// empty canvas, and only where a left drag on the pane draws one.
    pub fn starts_selection_box(&self, hit: &MouseHit) -> (r: bool)
        ensures
            r == (self.box_selects_on_drag() && *hit is Nothing),
    {
        self.selection_on_drag && matches!(hit, MouseHit::Nothing)
    }
}

} // verus!
