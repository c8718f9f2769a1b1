//! Layered layout support: the direction of a layout, the handle sides it
//! gives the nodes, and building a flow from a list of edges.
//!
//! The coordinates of a layout are computed outside the library; it reads
//! the graph as index pairs and hands the laid-out nodes back so that their
//! handles face along the layout.

use vstd::prelude::*;
use crate::types::handle::opposite_side;
use crate::types::HandlePosition;

verus! {

/// The direction in which the layers of a layout follow each other.
#[derive(Debug, Clone, Copy, PartialEq, Eq, Structural)]
pub enum LayoutDirection {
    /// Layers go from top to bottom (default).
    TopToBottom,
    /// Layers go from left to right.
    LeftToRight,
    /// Layers go from bottom to top.
    BottomToTop,
    /// Layers go from right to left.
    RightToLeft,
}

impl Default for LayoutDirection {
    fn default() -> (r: Self)
        ensures
            r == LayoutDirection::TopToBottom,
    {
        LayoutDirection::TopToBottom
    }
}

/// The side where edges leave a node in a layout of direction `d`: the side
/// the layers follow toward.
pub open spec fn source_side(d: LayoutDirection) -> HandlePosition {
    match d {
        LayoutDirection::TopToBottom => HandlePosition::Bottom,
        LayoutDirection::LeftToRight => HandlePosition::Right,
        LayoutDirection::BottomToTop => HandlePosition::Top,
        LayoutDirection::RightToLeft => HandlePosition::Left,
    }
}

impl LayoutDirection {
    /// The side where edges leave a node.
    pub fn source_position(self) -> (r: HandlePosition)
        ensures
            r == source_side(self),
    {
        match self {
            LayoutDirection::TopToBottom => HandlePosition::Bottom,
            LayoutDirection::LeftToRight => HandlePosition::Right,
            LayoutDirection::BottomToTop => HandlePosition::Top,
            LayoutDirection::RightToLeft => HandlePosition::Left,
        }
    }

    /// The side where edges enter a node: opposite the source side.
    pub fn target_position(self) -> (r: HandlePosition)
        ensures
            r == opposite_side(source_side(self)),
    {
        self.source_position().opposite()
    }
}

/// Something that reads as an edge: a source, a target and an optional label.
pub trait IntoEdge<'a> {
    /// The source, target and label, as characters.
    spec fn edge_view(&self) -> (Seq<char>, Seq<char>, Option<Seq<char>>);

    /// The source, target and label.
    fn into_edge(self) -> (r: (&'a str, &'a str, Option<&'a str>))
        ensures
            (r.0@, r.1@, crate::strs::opt_str_chars(r.2)) == self.edge_view();
}

impl<'a> IntoEdge<'a> for (&'a str, &'a str) {
    open spec fn edge_view(&self) -> (Seq<char>, Seq<char>, Option<Seq<char>>) {
        (self.0@, self.1@, None)
    }

    fn into_edge(self) -> (r: (&'a str, &'a str, Option<&'a str>)) {
        (self.0, self.1, None)
    }
}

impl<'a> IntoEdge<'a> for (&'a str, &'a str, &'a str) {
    open spec fn edge_view(&self) -> (Seq<char>, Seq<char>, Option<Seq<char>>) {
        (self.0@, self.1@, Some(self.2@))
    }

    fn into_edge(self) -> (r: (&'a str, &'a str, Option<&'a str>)) {
        (self.0, self.1, Some(self.2))
    }
}

} // verus!
