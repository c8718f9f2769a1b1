//! Actions and their default key bindings.
//!
//! Actions separate what to do from how it is triggered: a binding maps a
//! key press to an action, and the flow applies the action.

use vstd::prelude::*;
use crate::input::{KeyCode, KeyEvent};

verus! {

/// Semantic actions for flow graph interaction that a key press can trigger.
#[derive(Debug, Clone, Copy, PartialEq, Eq, Structural)]
pub enum FlowAction {
    /// Select the next node in insertion order.
    SelectNext,
    /// Select the previous node in insertion order.
    SelectPrev,
    /// Select the nearest node above the current selection.
    SelectUp,
    /// Select the nearest node below the current selection.
    SelectDown,
    /// Select the nearest node to the left of the current selection.
    SelectLeft,
    /// Select the nearest node to the right of the current selection.
    SelectRight,
    /// Clear the current selection.
    ClearSelection,
    /// Toggle multi-select mode (clicks toggle selection without clearing).
    ToggleMultiSelect,
    /// Pan the viewport left.
    PanLeft,
    /// Pan the viewport right.
    PanRight,
    /// Pan the viewport up.
    PanUp,
    /// Pan the viewport down.
    PanDown,
    /// Delete the selected nodes and edges.
    Delete,
    /// Cancel the connection being created.
    CancelConnection,
    /// Center the viewport on the selected node.
    CenterOnSelected,
}

/// Semantic actions for the viewport controls.
#[derive(Debug, Clone, Copy, PartialEq, Eq, Structural)]
pub enum ControlsAction {
    /// Zoom in.
    ZoomIn,
    /// Zoom out.
    ZoomOut,
    /// Reset the zoom to 1.
    ResetZoom,
    /// Fit all nodes in view.
    FitView,
    /// Toggle the interactivity lock.
    ToggleLock,
}

/// The default flow binding of a key press.
///
/// Tab selects the next node and Shift+Tab the previous one; every other
/// binding needs a key pressed without modifiers: the arrows navigate,
/// `h`/`j`/`k`/`l` pan, Delete and Backspace delete, Escape cancels a
/// connection, `c` centers on the selection and `m` toggles multi-select.
pub open spec fn flow_binding(key: KeyEvent) -> Option<FlowAction> {
    let m = key.modifiers;
    let plain = !(m.shift || m.ctrl || m.alt);
    if key.code == KeyCode::Tab && m.shift {
        Some(FlowAction::SelectPrev)
    } else if key.code == KeyCode::Tab && plain {
        Some(FlowAction::SelectNext)
    } else if !plain {
        None
    } else {
        match key.code {
            KeyCode::Up => Some(FlowAction::SelectUp),
            KeyCode::Down => Some(FlowAction::SelectDown),
            KeyCode::Left => Some(FlowAction::SelectLeft),
            KeyCode::Right => Some(FlowAction::SelectRight),
            KeyCode::Char('h') => Some(FlowAction::PanLeft),
            KeyCode::Char('j') => Some(FlowAction::PanDown),
            KeyCode::Char('k') => Some(FlowAction::PanUp),
            KeyCode::Char('l') => Some(FlowAction::PanRight),
            KeyCode::Delete | KeyCode::Backspace => Some(FlowAction::Delete),
            KeyCode::Esc => Some(FlowAction::CancelConnection),
            KeyCode::Char('c') => Some(FlowAction::CenterOnSelected),
            KeyCode::Char('m') => Some(FlowAction::ToggleMultiSelect),
            _ => None,
        }
    }
}

/// The default controls binding of a key press: `+`/`=` zoom in, `-`/`_`
/// zoom out, `0` resets the zoom, `f` fits the view and `i` toggles the lock,
/// each without modifiers.
pub open spec fn controls_binding(key: KeyEvent) -> Option<ControlsAction> {
    let m = key.modifiers;
    if m.shift || m.ctrl || m.alt {
        None
    } else {
        match key.code {
            KeyCode::Char('+') | KeyCode::Char('=') => Some(ControlsAction::ZoomIn),
            KeyCode::Char('-') | KeyCode::Char('_') => Some(ControlsAction::ZoomOut),
            KeyCode::Char('0') => Some(ControlsAction::ResetZoom),
            KeyCode::Char('f') => Some(ControlsAction::FitView),
            KeyCode::Char('i') => Some(ControlsAction::ToggleLock),
            _ => None,
        }
    }
}

/// Default key bindings for flow graph actions.
///
/// Returns `Some(action)` if the key matches a default binding, `None`
/// otherwise.
pub fn default_flow_key_binding(key: &KeyEvent) -> (r: Option<FlowAction>)
    ensures
        r == flow_binding(*key),
{
    if key.code == KeyCode::Tab && key.modifiers.shift {
        return Some(FlowAction::SelectPrev);
    }
    if key.code == KeyCode::Tab && !key.modifiers.any() {
        return Some(FlowAction::SelectNext);
    }
    if key.modifiers.any() {
        return None;
    }
    match key.code {
        KeyCode::Up => Some(FlowAction::SelectUp),
        KeyCode::Down => Some(FlowAction::SelectDown),
        KeyCode::Left => Some(FlowAction::SelectLeft),
        KeyCode::Right => Some(FlowAction::SelectRight),
        KeyCode::Char('h') => Some(FlowAction::PanLeft),
        KeyCode::Char('j') => Some(FlowAction::PanDown),
        KeyCode::Char('k') => Some(FlowAction::PanUp),
        KeyCode::Char('l') => Some(FlowAction::PanRight),
        KeyCode::Delete | KeyCode::Backspace => Some(FlowAction::Delete),
        KeyCode::Esc => Some(FlowAction::CancelConnection),
        KeyCode::Char('c') => Some(FlowAction::CenterOnSelected),
        KeyCode::Char('m') => Some(FlowAction::ToggleMultiSelect),
        _ => None,
    }
}

/// Default key bindings for the viewport controls.
///
/// Returns `Some(action)` if the key matches a controls binding, `None`
/// otherwise.
pub fn default_controls_key_binding(key: &KeyEvent) -> (r: Option<ControlsAction>)
    ensures
        r == controls_binding(*key),
{
    if key.modifiers.any() {
        return None;
    }
    match key.code {
        KeyCode::Char('+') | KeyCode::Char('=') => Some(ControlsAction::ZoomIn),
        KeyCode::Char('-') | KeyCode::Char('_') => Some(ControlsAction::ZoomOut),
        KeyCode::Char('0') => Some(ControlsAction::ResetZoom),
        KeyCode::Char('f') => Some(ControlsAction::FitView),
        KeyCode::Char('i') => Some(ControlsAction::ToggleLock),
        _ => None,
    }
}

/// No key is bound both as a viewport control and as a flow action.
pub proof fn lemma_bindings_disjoint(key: KeyEvent)
    ensures
        !(controls_binding(key) is Some && flow_binding(key) is Some),
{
}

} // verus!
