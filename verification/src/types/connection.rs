//! Connections: potential edges used while an edge is being created.

use vstd::prelude::*;
use crate::strs::{copy_opt, opt_chars, owned, push_str};

verus! {

/// A potential edge between two handles.
///
/// A connection has no ID (the edge doesn't exist yet) and no content.
/// Handle IDs are optional: `None` means "the only handle of this type on the node".
#[derive(Debug, PartialEq, Eq)]
pub struct Connection {
    /// Source node ID.
    pub source: String,
    /// Source handle ID. `None` means the default (only) source handle.
    pub source_handle: Option<String>,
    /// Target node ID.
    pub target: String,
    /// Target handle ID. `None` means the default (only) target handle.
    pub target_handle: Option<String>,
}

/// The deterministic edge ID of a connection with the given endpoints:
/// `{source}:{source_handle}<>{target}:{target_handle}`, a missing handle
/// written as the empty string.
pub open spec fn edge_id_spec(
    source: Seq<char>,
    source_handle: Option<Seq<char>>,
    target: Seq<char>,
    target_handle: Option<Seq<char>>,
) -> Seq<char> {
    let sh = match source_handle { Some(h) => h, None => Seq::empty() };
    let th = match target_handle { Some(h) => h, None => Seq::empty() };
    source + seq![':'] + sh + seq!['<', '>'] + target + seq![':'] + th
}

impl Connection {
    /// The edge ID this connection produces, over character sequences.
    pub open spec fn spec_edge_id(&self) -> Seq<char> {
        edge_id_spec(self.source@, opt_chars(self.source_handle), self.target@, opt_chars(self.target_handle))
    }

    /// Creates a new connection.
    pub fn new(
        source: &str,
        source_handle: Option<String>,
        target: &str,
        target_handle: Option<String>,
    ) -> (r: Self)
        ensures
            r.source@ == source@,
            r.source_handle == source_handle,
            r.target@ == target@,
            r.target_handle == target_handle,
    {
        Connection { source: owned(source), source_handle, target: owned(target), target_handle }
    }

    /// Returns the deterministic edge ID for this connection.
    ///
    /// Format: `{source}:{source_handle}<>{target}:{target_handle}`.
    /// Handle IDs default to the empty string when `None`.
    pub fn edge_id(&self) -> (r: String)
        ensures
            r@ == self.spec_edge_id(),
    {
        let mut s = owned(self.source.as_str());
        let colon = ":";
        let arrows = "<>";
        proof {
            reveal_strlit(":");
            reveal_strlit("<>");
        }
        push_str(&mut s, colon);
        match &self.source_handle {
            Some(h) => push_str(&mut s, h.as_str()),
            None => {},
        }
        push_str(&mut s, arrows);
        push_str(&mut s, self.target.as_str());
        push_str(&mut s, colon);
        match &self.target_handle {
            Some(h) => push_str(&mut s, h.as_str()),
            None => {},
        }
        proof {
            assert(s@ =~= self.spec_edge_id());
        }
        s
    }

    /// A copy of this connection.
    pub fn duplicate(&self) -> (r: Self)
        ensures
            r.source@ == self.source@,
            r.target@ == self.target@,
            opt_chars(r.source_handle) == opt_chars(self.source_handle),
            opt_chars(r.target_handle) == opt_chars(self.target_handle),
    {
        Connection {
            source: owned(self.source.as_str()),
            source_handle: copy_opt(&self.source_handle),
            target: owned(self.target.as_str()),
            target_handle: copy_opt(&self.target_handle),
        }
    }
}

/// Controls which handle type combinations are allowed for connections.
#[derive(Debug, Clone, Copy, PartialEq, Eq, Structural)]
pub enum ConnectionMode {
    /// Only source handles can connect to target handles (default).
    Strict,
    /// Any handle type combination except self-loops.
    Loose,
}

impl Default for ConnectionMode {
    fn default() -> (r: Self)
        ensures
            r == ConnectionMode::Strict,
    {
        ConnectionMode::Strict
    }
}

} // verus!
