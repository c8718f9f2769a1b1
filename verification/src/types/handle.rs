//! Sides of a node and handle kinds.

use vstd::prelude::*;

verus! {

/// The side of a node where a handle is positioned.
#[derive(Debug, Clone, Copy, PartialEq, Eq, Hash, Structural)]
pub enum HandlePosition {
    /// Handle on the top edge of the node.
    Top,
    /// Handle on the right edge of the node.
    Right,
    /// Handle on the bottom edge of the node.
    Bottom,
    /// Handle on the left edge of the node.
    Left,
}

/// The side facing `p` across the node.
pub open spec fn opposite_side(p: HandlePosition) -> HandlePosition {
    match p {
        HandlePosition::Top => HandlePosition::Bottom,
        HandlePosition::Right => HandlePosition::Left,
        HandlePosition::Bottom => HandlePosition::Top,
        HandlePosition::Left => HandlePosition::Right,
    }
}

/// Lowercase name of a side.
pub open spec fn side_name_spec(p: HandlePosition) -> Seq<char> {
    match p {
        HandlePosition::Top => seq!['t', 'o', 'p'],
        HandlePosition::Right => seq!['r', 'i', 'g', 'h', 't'],
        HandlePosition::Bottom => seq!['b', 'o', 't', 't', 'o', 'm'],
        HandlePosition::Left => seq!['l', 'e', 'f', 't'],
    }
}

impl HandlePosition {
    /// Terminal-space offset for an edge endpoint arriving on this side.
    ///
    /// Right and bottom endpoints already sit one cell outside the border and
    /// need no nudge; top and left sit on it and are pushed outward by one.
    pub fn edge_endpoint_render_offset(&self) -> (r: (i32, i32))
        ensures
            r == (match *self {
                HandlePosition::Bottom | HandlePosition::Right => (0i32, 0i32),
                HandlePosition::Top => (0i32, -1i32),
                HandlePosition::Left => (-1i32, 0i32),
            }),
    {
        match self {
            HandlePosition::Bottom | HandlePosition::Right => (0, 0),
            HandlePosition::Top => (0, -1),
            HandlePosition::Left => (-1, 0),
        }
    }

    /// Lowercase name of the side, for use as a handle ID.
    pub fn side_name(&self) -> (r: &'static str)
        ensures
            r@ == side_name_spec(*self),
    {
        match self {
            HandlePosition::Top => {
                proof { reveal_strlit("top"); }
                "top"
            },
            HandlePosition::Right => {
                proof { reveal_strlit("right"); }
                "right"
            },
            HandlePosition::Bottom => {
                proof { reveal_strlit("bottom"); }
                "bottom"
            },
            HandlePosition::Left => {
                proof { reveal_strlit("left"); }
                "left"
            },
        }
    }

    /// Returns the position on the opposite side.
    pub fn opposite(&self) -> (r: Self)
        ensures
            r == opposite_side(*self),
    {
        match self {
            HandlePosition::Top => HandlePosition::Bottom,
            HandlePosition::Right => HandlePosition::Left,
            HandlePosition::Bottom => HandlePosition::Top,
            HandlePosition::Left => HandlePosition::Right,
        }
    }

    /// Returns true if this is a horizontal position (left or right).
    pub fn is_horizontal(&self) -> (r: bool)
        ensures
            r == (*self == HandlePosition::Left || *self == HandlePosition::Right),
    {
        matches!(self, HandlePosition::Left | HandlePosition::Right)
    }

    /// Returns true if this is a vertical position (top or bottom).
    pub fn is_vertical(&self) -> (r: bool)
        ensures
            r == (*self == HandlePosition::Top || *self == HandlePosition::Bottom),
    {
        matches!(self, HandlePosition::Top | HandlePosition::Bottom)
    }

    /// Returns the default handle ID for this position.
    pub fn default_id(&self) -> (r: &'static str)
        ensures
            r@ == side_name_spec(*self),
    {
        self.side_name()
    }
}

/// The type of handle (source or target for edges).
#[derive(Debug, Clone, Copy, PartialEq, Eq, Hash, Structural)]
pub enum HandleType {
    /// Source handle: edges originate from here.
    Source,
    /// Target handle: edges terminate here.
    Target,
}

/// The other handle type.
pub open spec fn opposite_type(t: HandleType) -> HandleType {
    match t {
        HandleType::Source => HandleType::Target,
        HandleType::Target => HandleType::Source,
    }
}

impl HandleType {
    /// Returns the opposite handle type.
    pub fn opposite(&self) -> (r: Self)
        ensures
            r == opposite_type(*self),
    {
        match self {
            HandleType::Source => HandleType::Target,
            HandleType::Target => HandleType::Source,
        }
    }
}

/// Taking the opposite side twice gives the side back.
pub proof fn lemma_opposite_side_involutive(p: HandlePosition)
    ensures
        opposite_side(opposite_side(p)) == p,
{
}

/// Taking the opposite handle type twice gives the type back.
pub proof fn lemma_opposite_type_involutive(t: HandleType)
    ensures
        opposite_type(opposite_type(t)) == t,
{
}

} // verus!
