//! Default values of fields whose default is not the type's own, for
//! deserializers that fill in missing fields.

use vstd::prelude::*;
use crate::types::handle::HandlePosition;

verus! {

/// `true`, the default of flags that are on unless turned off.
pub fn bool_true() -> (r: bool)
    ensures
        r,
{
    true
}

/// `Right`, the default side of source handles.
pub fn handle_position_right() -> (r: HandlePosition)
    ensures
        r == HandlePosition::Right,
{
    HandlePosition::Right
}

/// `Left`, the default side of target handles.
pub fn handle_position_left() -> (r: HandlePosition)
    ensures
        r == HandlePosition::Left,
{
    HandlePosition::Left
}

} // verus!
