//! Viewport policies that carry no coordinates.

use vstd::prelude::*;

verus! {

/// Pan mode for scroll-based panning.
#[derive(Debug, Clone, Copy, PartialEq, Eq, Hash, Structural)]
pub enum PanMode {
    /// Free panning in all directions.
    Free,
    /// Horizontal panning only.
    Horizontal,
    /// Vertical panning only.
    Vertical,
}

impl Default for PanMode {
    fn default() -> (r: Self)
        ensures
            r == PanMode::Free,
    {
        PanMode::Free
    }
}

/// What the viewport does when keyboard navigation changes the selection.
///
/// The selection change and its event happen regardless of the policy;
/// only the camera response differs.
#[derive(Debug, Clone, Copy, PartialEq, Eq, Hash, Structural)]
pub enum SelectionReveal {
    /// Leave the viewport untouched; the application drives the camera.
    Untouched,
    /// Pan the minimum amount to bring the newly-selected node on screen. Default.
    EnsureVisible,
    /// Center the viewport on the newly-selected node.
    Center,
}

impl Default for SelectionReveal {
    fn default() -> (r: Self)
        ensures
            r == SelectionReveal::EnsureVisible,
    {
        SelectionReveal::EnsureVisible
    }
}

} // verus!
