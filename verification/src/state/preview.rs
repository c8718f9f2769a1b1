//! The edge preview: the connection a user is drawing, from a start handle
//! to a target handle, with its validation.

use vstd::prelude::*;
use crate::state::graph::connected;
use crate::state::handles::{
    can_start, collect_ids, collect_target_ids, find_handle, first_typed, handles_of_node,
    node_handles, opt_strings, pick_from, pick_id, starts_of, ids_where, target_ids,
};
use crate::state::hierarchy::{lemma_found_first, lemma_not_found, node_by_id};
use crate::state::lookup::find_node;
use crate::state::model::{first_in, lemma_first_in, lemma_first_in_stable};
use crate::state::selection::{lemma_prev_index, next_index, prev_index};
use crate::state::Flow;
use crate::strs::{copy_string, opt_chars, opt_ref, opt_str_chars, owned, owned_opt};
use crate::types::{Connection, ConnectionMode, Handle, HandleType, Node};

verus! {

/// The state of an edge being drawn.
#[derive(Debug, PartialEq, Eq)]
pub struct EdgePreview {
    /// The node the preview starts from.
    pub from_node_id: String,
    /// The handle the preview starts from; `None` is the node's only handle of its type.
    pub from_handle_id: Option<String>,
    /// The type of the handle the preview starts from.
    pub from_handle_type: HandleType,
    /// The node the preview points at, if any.
    pub to_node_id: Option<String>,
    /// The handle the preview points at, if any.
    pub to_handle_id: Option<String>,
    /// Whether the current connection is valid (`Some(true)`), invalid
    /// (`Some(false)`), or has no target to validate (`None`).
    pub is_valid: Option<bool>,
}

/// The connection a finished preview stands for, as
/// `(source, source handle, target, target handle)`: started from a target
/// handle, the direction is turned round. `None` without a target node.
pub open spec fn preview_connection(ep: EdgePreview)
    -> Option<(Seq<char>, Option<Seq<char>>, Seq<char>, Option<Seq<char>>)>
{
    match ep.to_node_id {
        None => None,
        Some(to) => if ep.from_handle_type == HandleType::Target {
            Some((to@, opt_chars(ep.to_handle_id), ep.from_node_id@, opt_chars(ep.from_handle_id)))
        } else {
            Some((ep.from_node_id@, opt_chars(ep.from_handle_id), to@, opt_chars(ep.to_handle_id)))
        },
    }
}

/// The preview is active, has a target, and is valid.
pub open spec fn completable(p: Option<EdgePreview>) -> bool {
    p matches Some(ep) && ep.is_valid == Some(true) && ep.to_node_id is Some
}

/// `c` joins the given endpoints.
pub open spec fn conn_is(
    c: Connection,
    s: Seq<char>,
    sh: Option<Seq<char>>,
    t: Seq<char>,
    th: Option<Seq<char>>,
) -> bool {
    &&& c.source@ == s
    &&& opt_chars(c.source_handle) == sh
    &&& c.target@ == t
    &&& opt_chars(c.target_handle) == th
}

/// `c` is the connection a finished preview stands for.
pub open spec fn is_preview_connection(c: Connection, ep: EdgePreview) -> bool {
    match preview_connection(ep) {
        Some((s, sh, t, th)) => conn_is(c, s, sh, t, th),
        None => false,
    }
}

/// `out` is an answer the validator `v` may give on the connection with the
/// given endpoints.
pub open spec fn answers<V: Fn(&Connection) -> bool>(
    v: V,
    s: Seq<char>,
    sh: Option<Seq<char>>,
    t: Seq<char>,
    th: Option<Seq<char>>,
    out: bool,
) -> bool {
    exists|c: Connection| conn_is(c, s, sh, t, th) && #[trigger] call_ensures(v, (&c,), out)
}

/// `ok` is the validity a preview may report for the given endpoints: an
/// existing connection is invalid; otherwise the validator decides.
pub open spec fn validity<E, V: Fn(&Connection) -> bool>(
    edges: Seq<crate::types::Edge<E>>,
    v: V,
    s: Seq<char>,
    sh: Option<Seq<char>>,
    t: Seq<char>,
    th: Option<Seq<char>>,
    ok: bool,
) -> bool {
    if connected(edges, s, sh, t, th) {
        !ok
    } else {
        answers(v, s, sh, t, th, ok)
    }
}

/// The node a preview from `from` may point at: the first node with ID
/// `to`, unless that is `from` itself, or hidden, or not connectable.
pub open spec fn valid_target<N>(nodes: Seq<Node<N>>, to: Seq<char>, from: Seq<char>) -> Option<Node<N>> {
    if to == from {
        None
    } else {
        match node_by_id(nodes, to) {
            Some(n) => if n.hidden || !n.connectable { None } else { Some(n) },
            None => None,
        }
    }
}

/// The handle ID a preview from `from` (type `t`) lands on when pointed at
/// node `to` with the wanted handle, if it can land there.
pub open spec fn aim<N>(
    nodes: Seq<Node<N>>,
    from: Seq<char>,
    t: HandleType,
    mode: ConnectionMode,
    to: Seq<char>,
    wanted: Option<Seq<char>>,
) -> Option<Option<Seq<char>>> {
    match valid_target(nodes, to, from) {
        None => None,
        Some(n) => pick_id(target_ids(node_handles(n), t, mode), wanted),
    }
}

/// A preview may start from the given handle: the node exists and is
/// connectable, and the handle found for the ID can start a connection.
pub open spec fn can_begin<N>(nodes: Seq<Node<N>>, from: Seq<char>, fh: Option<Seq<char>>, t: HandleType) -> bool {
    match node_by_id(nodes, from) {
        None => false,
        Some(n) => n.connectable && match find_handle(node_handles(n), fh, t) {
            Some(h) => can_start(h),
            None => false,
        },
    }
}

/// The predicate "position `k` of `ids` holds `cur`".
pub open spec fn holds_at(ids: Seq<Option<Seq<char>>>, cur: Option<Seq<char>>) -> spec_fn(int) -> bool {
    |k: int| ids[k] == cur
}

/// The first index of `cur` among `ids`, or 0 when it is absent.
pub open spec fn index_or_zero(ids: Seq<Option<Seq<char>>>, cur: Option<Seq<char>>) -> int {
    match first_in(holds_at(ids, cur), ids.len() as int) {
        Some(k) => k,
        None => 0,
    }
}

/// One step forward or backward from `i` among `len` positions, wrapping round.
pub open spec fn cycle_step(len: int, i: int, forward: bool) -> int {
    if forward { next_index(Some(i), len) } else { prev_index(Some(i), len) }
}

/// The start handle ID a preview from node `from` (type `t`) switches to
/// when asked for the wanted one: among the node's handles of that type that
/// can start a connection, as [`pick_id`] chooses.
pub open spec fn source_pick<N>(nodes: Seq<Node<N>>, from: Seq<char>, t: HandleType, wanted: Option<Seq<char>>) -> Option<Option<Seq<char>>> {
    match node_by_id(nodes, from) {
        None => None,
        Some(n) => pick_id(ids_where(node_handles(n), starts_of(t)), wanted),
    }
}

impl<N, E> Flow<N, E> {
    /// `new` is `old` with its preview, started from `ep`, pointed at handle
    /// `h` of node `to` and validated by `v`.
    pub open spec fn retargeted<V: Fn(&Connection) -> bool>(
        new: Self,
        old: Self,
        ep: EdgePreview,
        to: Seq<char>,
        h: Option<Seq<char>>,
        v: V,
    ) -> bool {
        &&& new.same_but_preview(&old)
        &&& new.preview() matches Some(np)
        &&& np.from_node_id == ep.from_node_id
        &&& np.from_handle_id == ep.from_handle_id
        &&& np.from_handle_type == ep.from_handle_type
        &&& opt_chars(np.to_node_id) == Some(to)
        &&& opt_chars(np.to_handle_id) == h
        &&& np.is_valid matches Some(ok)
        &&& validity(old.edge_seq(), v, ep.from_node_id@, opt_chars(ep.from_handle_id), to, h, ok)
    }

    /// The effect of pointing the preview of `old` at node `to` with the
    /// wanted handle: `new` is `old` and `r` false when no preview is active
    /// or it cannot land there; otherwise the preview is retargeted and `r`
    /// is true.
    pub open spec fn aimed<V: Fn(&Connection) -> bool>(
        old: Self,
        new: Self,
        to: Seq<char>,
        wanted: Option<Seq<char>>,
        v: V,
        r: bool,
    ) -> bool {
        match old.preview() {
            None => !r && new == old,
            Some(ep) => match aim(old.node_seq(), ep.from_node_id@, ep.from_handle_type, old.mode(), to, wanted) {
                None => !r && new == old,
                Some(h) => r && Self::retargeted(new, old, ep, to, h, v),
            },
        }
    }

    /// The edge preview, or `None` if no preview is active.
    pub fn edge_preview(&self) -> (r: Option<&EdgePreview>)
        ensures
            match r {
                Some(p) => self.preview() == Some(*p),
                None => self.preview() is None,
            },
    {
        match &self.edge_preview {
            Some(p) => Some(p),
            None => None,
        }
    }

    /// Clears the edge preview.
    pub fn clear_edge_preview(&mut self)
        ensures
            final(self).preview() is None,
            final(self).same_but_preview(old(self)),
    {
        self.edge_preview = None;
    }

    /// Starts a preview from the given handle without a target.
    pub fn set_edge_preview_raw(&mut self, from_node_id: String, from_handle_id: Option<String>, from_handle_type: HandleType)
        ensures
            final(self).same_but_preview(old(self)),
            final(self).preview() == Some(EdgePreview {
                from_node_id,
                from_handle_id,
                from_handle_type,
                to_node_id: None,
                to_handle_id: None,
                is_valid: None,
            }),
    {
        self.edge_preview = Some(EdgePreview {
            from_node_id,
            from_handle_id,
            from_handle_type,
            to_node_id: None,
            to_handle_id: None,
            is_valid: None,
        });
    }

    /// The index of the node a preview from `from` may point at, if any.
    fn preview_target_index(&self, to: &str, from: &str) -> (r: Option<usize>)
        ensures
            match r {
                Some(i) => i < self.node_seq().len() && valid_target(self.node_seq(), to@, from@) == Some(self.node_seq()[i as int]),
                None => valid_target(self.node_seq(), to@, from@) is None,
            },
    {
        if crate::strs::str_eq(to, from) {
            return None;
        }
        match find_node(&self.nodes, to) {
            Some(i) => {
                proof {
                    lemma_found_first(self.nodes@, to@, i as int);
                }
                let n = &self.nodes[i];
                if n.hidden || !n.connectable {
                    None
                } else {
                    Some(i)
                }
            },
            None => {
                proof {
                    lemma_not_found(self.nodes@, to@);
                }
                None
            },
        }
    }

    /// The IDs of the handles of node `i` a preview of type `t` may end on.
    fn target_ids_at(&self, i: usize, t: HandleType) -> (r: Vec<Option<String>>)
        requires
            i < self.node_seq().len(),
        ensures
            opt_strings(r@) == target_ids(node_handles(self.node_seq()[i as int]), t, self.connection_mode),
    {
        let n = &self.nodes[i];
        match handles_of_node(n) {
            Some(d) => collect_target_ids(&d, t, self.connection_mode),
            None => collect_target_ids(&n.handles, t, self.connection_mode),
        }
    }

    /// Where a preview from `from` (type `t`) lands when pointed at `to`.
    fn aim_at(&self, from: &str, t: HandleType, to: &str, wanted: Option<&str>) -> (r: Option<Option<String>>)
        ensures
            match r {
                Some(o) => aim(self.node_seq(), from@, t, self.connection_mode, to@, opt_str_chars(wanted)) == Some(opt_chars(o)),
                None => aim(self.node_seq(), from@, t, self.connection_mode, to@, opt_str_chars(wanted)) is None,
            },
    {
        match self.preview_target_index(to, from) {
            None => None,
            Some(i) => {
                let ids = self.target_ids_at(i, t);
                pick_from(&ids, wanted)
            },
        }
    }

    /// The validity of a preview connection: invalid if it exists already,
    /// else what the validator answers.
    fn preview_validity<V: Fn(&Connection) -> bool>(
        &self,
        s: &str,
        sh: Option<&str>,
        t: &str,
        th: Option<&str>,
        validator: &V,
    ) -> (ok: bool)
        requires
            forall|c: &Connection| call_requires(*validator, (c,)),
        ensures
            validity(self.edge_seq(), *validator, s@, opt_str_chars(sh), t@, opt_str_chars(th), ok),
    {
        if self.connection_exists(s, sh, t, th) {
            false
        } else {
            let c = Connection::new(s, owned_opt(sh), t, owned_opt(th));
            let ok = validator(&c);
            assert(conn_is(c, s@, opt_str_chars(sh), t@, opt_str_chars(th)));
            ok
        }
    }
}


impl<N, E> Flow<N, E> {
    /// The node and handle a cycle of the preview's target steps to from
    /// `old`, if it can: the next (or previous) candidate handle of the
    /// target node after the current one, wrapping round.
    pub open spec fn cycle_target(old: Self, forward: bool) -> Option<(Seq<char>, Option<Seq<char>>)> {
        match old.preview() {
            None => None,
            Some(ep) => match ep.to_node_id {
                None => None,
                Some(to) => match valid_target(old.node_seq(), to@, ep.from_node_id@) {
                    None => None,
                    Some(n) => {
                        let ids = target_ids(node_handles(n), ep.from_handle_type, old.mode());
                        if ids.len() <= 1 {
                            None
                        } else {
                            let k = cycle_step(ids.len() as int, index_or_zero(ids, opt_chars(ep.to_handle_id)), forward);
                            Some((to@, ids[k]))
                        }
                    },
                },
            },
        }
    }

    /// The effect of switching the start handle of the preview of `old` to
    /// the wanted one: `new` is `old` and `r` false when no preview is active
    /// or no such start handle exists; otherwise the start handle changes and
    /// a set target is validated again.
    pub open spec fn resourced<V: Fn(&Connection) -> bool>(
        old: Self,
        new: Self,
        wanted: Option<Seq<char>>,
        v: V,
        r: bool,
    ) -> bool {
        match old.preview() {
            None => !r && new == old,
            Some(ep) => match source_pick(old.node_seq(), ep.from_node_id@, ep.from_handle_type, wanted) {
                None => !r && new == old,
                Some(h) => {
                    &&& r
                    &&& new.same_but_preview(&old)
                    &&& new.preview() matches Some(np)
                    &&& np.from_node_id == ep.from_node_id
                    &&& opt_chars(np.from_handle_id) == h
                    &&& np.from_handle_type == ep.from_handle_type
                    &&& np.to_node_id == ep.to_node_id
                    &&& np.to_handle_id == ep.to_handle_id
                    &&& match ep.to_node_id {
                        Some(to) => np.is_valid matches Some(ok)
                            && validity(old.edge_seq(), v, ep.from_node_id@, h, to@, opt_chars(ep.to_handle_id), ok),
                        None => np.is_valid == ep.is_valid,
                    }
                },
            },
        }
    }

    /// The start handle a cycle of the preview's start steps to from `old`,
    /// if it can: the next (or previous) start handle of the same type on
    /// the start node after the current one, wrapping round.
    pub open spec fn cycle_source(old: Self, forward: bool) -> Option<Option<Seq<char>>> {
        match old.preview() {
            None => None,
            Some(ep) => match node_by_id(old.node_seq(), ep.from_node_id@) {
                None => None,
                Some(n) => {
                    let ids = ids_where(node_handles(n), starts_of(ep.from_handle_type));
                    if ids.len() <= 1 {
                        None
                    } else {
                        Some(ids[cycle_step(ids.len() as int, index_or_zero(ids, opt_chars(ep.from_handle_id)), forward)])
                    }
                },
            },
        }
    }

    /// Starts an edge preview from a handle, without a target.
    ///
    /// Returns `false`, changing nothing, if the node doesn't exist or isn't
    /// connectable, no handle is found for the ID, or that handle can't start
    /// a connection.
    pub fn start_edge_preview(&mut self, from_node_id: &str, from_handle_id: Option<&str>, from_handle_type: HandleType) -> (r: bool)
        ensures
            r == can_begin(old(self).node_seq(), from_node_id@, opt_str_chars(from_handle_id), from_handle_type),
            r ==> final(self).same_but_preview(old(self)),
            r ==> (final(self).preview() matches Some(ep)
                && ep.from_node_id@ == from_node_id@
                && opt_chars(ep.from_handle_id) == opt_str_chars(from_handle_id)
                && ep.from_handle_type == from_handle_type
                && ep.to_node_id is None
                && ep.to_handle_id is None
                && ep.is_valid is None),
            !r ==> *final(self) == *old(self),
    {
        let i = match find_node(&self.nodes, from_node_id) {
            Some(i) => i,
            None => {
                proof { lemma_not_found(self.nodes@, from_node_id@); }
                return false;
            },
        };
        proof { lemma_found_first(self.nodes@, from_node_id@, i as int); }
        let n = &self.nodes[i];
        let ok = n.connectable && match handles_of_node(n) {
            Some(d) => begin_allowed(&d, from_handle_id, from_handle_type),
            None => begin_allowed(&n.handles, from_handle_id, from_handle_type),
        };
        if !ok {
            return false;
        }
        self.set_edge_preview_raw(owned(from_node_id), owned_opt(from_handle_id), from_handle_type);
        true
    }

    /// Points the edge preview at a handle of a target node and validates
    /// the connection.
    ///
    /// Pass `to_handle_id: None` to target the first compatible handle. A
    /// handle is compatible when it can end a connection and, in strict mode,
    /// has the type opposite to the start handle. The connection is valid when
    /// it does not exist yet and `validator` accepts it.
    ///
    /// Returns `false`, changing nothing, if no preview is active, the target
    /// is the start node, or is missing, hidden or not connectable, or has no
    /// compatible handle with that ID.
    pub fn preview_to_handle<V: Fn(&Connection) -> bool>(
        &mut self,
        to_node_id: &str,
        to_handle_id: Option<&str>,
        validator: &V,
    ) -> (r: bool)
        requires
            forall|c: &Connection| call_requires(*validator, (c,)),
        ensures
            Self::aimed(*old(self), *final(self), to_node_id@, opt_str_chars(to_handle_id), *validator, r),
    {
        let mut ep = match self.edge_preview.take() {
            Some(ep) => ep,
            None => return false,
        };
        let picked = self.aim_at(ep.from_node_id.as_str(), ep.from_handle_type, to_node_id, to_handle_id);
        match picked {
            None => {
                self.edge_preview = Some(ep);
                false
            },
            Some(h) => {
                let ok = self.preview_validity(
                    ep.from_node_id.as_str(),
                    opt_ref(&ep.from_handle_id),
                    to_node_id,
                    opt_ref(&h),
                    validator,
                );
                ep.to_node_id = Some(owned(to_node_id));
                ep.to_handle_id = h;
                ep.is_valid = Some(ok);
                self.edge_preview = Some(ep);
                true
            },
        }
    }

    /// Cycles the preview's target to the next (`forward`) or previous
    /// compatible handle of the target node, wrapping round.
    ///
    /// Returns `false`, changing nothing, if no preview is active, it has no
    /// target node, the target can't be aimed at, or it has at most one
    /// compatible handle.
    pub fn cycle_to_handle<V: Fn(&Connection) -> bool>(&mut self, forward: bool, validator: &V) -> (r: bool)
        requires
            forall|c: &Connection| call_requires(*validator, (c,)),
        ensures
            match Self::cycle_target(*old(self), forward) {
                None => !r && *final(self) == *old(self),
                Some((to, w)) => Self::aimed(*old(self), *final(self), to, w, *validator, r),
            },
    {
        let ep = match &self.edge_preview {
            Some(ep) => ep,
            None => return false,
        };
        let to = match &ep.to_node_id {
            Some(t) => t,
            None => return false,
        };
        let i = match self.preview_target_index(to.as_str(), ep.from_node_id.as_str()) {
            Some(i) => i,
            None => return false,
        };
        let ids = self.target_ids_at(i, ep.from_handle_type);
        if ids.len() <= 1 {
            return false;
        }
        let cur = position_of(&ids, &ep.to_handle_id);
        let next = step(ids.len(), cur, forward);
        let to_node = copy_string(to);
        let wanted = crate::strs::copy_opt(&ids[next]);
        assert(opt_chars(wanted) == opt_strings(ids@)[next as int]);
        self.preview_to_handle(to_node.as_str(), opt_ref(&wanted), validator)
    }

    /// Switches the preview's start handle to the wanted one (the first
    /// start handle of the preview's type when `None`), validating a set
    /// target again.
    pub fn set_preview_source_handle<V: Fn(&Connection) -> bool>(
        &mut self,
        handle_id: Option<&str>,
        validator: &V,
    ) -> (r: bool)
        requires
            forall|c: &Connection| call_requires(*validator, (c,)),
        ensures
            Self::resourced(*old(self), *final(self), opt_str_chars(handle_id), *validator, r),
    {
        let mut ep = match self.edge_preview.take() {
            Some(ep) => ep,
            None => return false,
        };
        let i = match find_node(&self.nodes, ep.from_node_id.as_str()) {
            Some(i) => i,
            None => {
                proof { lemma_not_found(self.nodes@, ep.from_node_id@); }
                self.edge_preview = Some(ep);
                return false;
            },
        };
        proof { lemma_found_first(self.nodes@, ep.from_node_id@, i as int); }
        let ids = self.start_ids_at(i, ep.from_handle_type);
        let picked = pick_from(&ids, handle_id);
        match picked {
            None => {
                self.edge_preview = Some(ep);
                false
            },
            Some(h) => {
                ep.from_handle_id = h;
                match &ep.to_node_id {
                    Some(to) => {
                        let ok = self.preview_validity(
                            ep.from_node_id.as_str(),
                            opt_ref(&ep.from_handle_id),
                            to.as_str(),
                            opt_ref(&ep.to_handle_id),
                            validator,
                        );
                        ep.is_valid = Some(ok);
                    },
                    None => {},
                }
                self.edge_preview = Some(ep);
                true
            },
        }
    }

    /// Cycles the preview's start handle to the next (`forward`) or previous
    /// start handle of the same type on the start node, wrapping round.
    ///
    /// Returns `false`, changing nothing, if no preview is active, the start
    /// node is missing, or it has at most one such handle.
    pub fn cycle_from_handle<V: Fn(&Connection) -> bool>(&mut self, forward: bool, validator: &V) -> (r: bool)
        requires
            forall|c: &Connection| call_requires(*validator, (c,)),
        ensures
            match Self::cycle_source(*old(self), forward) {
                None => !r && *final(self) == *old(self),
                Some(w) => Self::resourced(*old(self), *final(self), w, *validator, r),
            },
    {
        let ep = match &self.edge_preview {
            Some(ep) => ep,
            None => return false,
        };
        let i = match find_node(&self.nodes, ep.from_node_id.as_str()) {
            Some(i) => i,
            None => {
                proof { lemma_not_found(self.nodes@, ep.from_node_id@); }
                return false;
            },
        };
        proof { lemma_found_first(self.nodes@, ep.from_node_id@, i as int); }
        let ids = self.start_ids_at(i, ep.from_handle_type);
        if ids.len() <= 1 {
            return false;
        }
        let cur = position_of(&ids, &ep.from_handle_id);
        let next = step(ids.len(), cur, forward);
        let wanted = crate::strs::copy_opt(&ids[next]);
        assert(opt_chars(wanted) == opt_strings(ids@)[next as int]);
        self.set_preview_source_handle(opt_ref(&wanted), validator)
    }

    /// The IDs of the handles of node `i` of type `t` that can start a connection.
    fn start_ids_at(&self, i: usize, t: HandleType) -> (r: Vec<Option<String>>)
        requires
            i < self.node_seq().len(),
        ensures
            opt_strings(r@) == ids_where(node_handles(self.node_seq()[i as int]), starts_of(t)),
    {
        let n = &self.nodes[i];
        match handles_of_node(n) {
            Some(d) => collect_ids(&d, t, true),
            None => collect_ids(&n.handles, t, true),
        }
    }

    /// Completes the edge preview: if it has a target and is valid, clears
    /// it and returns its connection, started from a target handle turned
    /// round. Otherwise returns `None` and changes nothing.
    ///
    /// The connection is not added to the graph.
    pub fn complete_edge_preview(&mut self) -> (r: Option<Connection>)
        ensures
            completable(old(self).preview()) ==> (r matches Some(c) && is_preview_connection(c, old(self).preview()->0)),
            completable(old(self).preview()) ==> final(self).preview() is None && final(self).same_but_preview(old(self)),
            !completable(old(self).preview()) ==> r is None && *final(self) == *old(self),
    {
        let ready = match &self.edge_preview {
            Some(ep) => ep.is_valid == Some(true) && ep.to_node_id.is_some(),
            None => false,
        };
        if !ready {
            return None;
        }
        match self.edge_preview.take() {
            Some(ep) => Some(preview_into_connection(ep)),
            None => None,
        }
    }

    /// Takes the edge preview, clearing it whatever it holds, and returns
    /// its connection if it has a target and is valid.
    pub fn take_edge_preview_connection(&mut self) -> (r: Option<Connection>)
        ensures
            final(self).preview() is None,
            final(self).same_but_preview(old(self)),
            completable(old(self).preview()) ==> (r matches Some(c) && is_preview_connection(c, old(self).preview()->0)),
            !completable(old(self).preview()) ==> r is None,
    {
        match self.edge_preview.take() {
            Some(ep) => {
                if ep.is_valid == Some(true) && ep.to_node_id.is_some() {
                    Some(preview_into_connection(ep))
                } else {
                    None
                }
            },
            None => None,
        }
    }

    /// Points the preview at a resolved target handle and validates it, or,
    /// given no target, clears its target and validity. Does nothing without
    /// a preview.
    pub fn set_preview_target<V: Fn(&Connection) -> bool>(
        &mut self,
        to_node_id: Option<&str>,
        to_handle_id: Option<&str>,
        validator: &V,
    ) -> (r: bool)
        requires
            forall|c: &Connection| call_requires(*validator, (c,)),
        ensures
            r == old(self).preview() is Some,
            !r ==> *final(self) == *old(self),
            r ==> final(self).same_but_preview(old(self)),
            old(self).preview() matches Some(ep) ==> (final(self).preview() matches Some(np)
                && np.from_node_id == ep.from_node_id
                && np.from_handle_id == ep.from_handle_id
                && np.from_handle_type == ep.from_handle_type
                && match to_node_id {
                    Some(to) => opt_chars(np.to_node_id) == Some(to@)
                        && opt_chars(np.to_handle_id) == opt_str_chars(to_handle_id)
                        && (np.is_valid matches Some(ok)
                        && validity(old(self).edge_seq(), *validator, ep.from_node_id@,
                            opt_chars(ep.from_handle_id), to@, opt_str_chars(to_handle_id), ok)),
                    None => np.to_node_id is None && np.to_handle_id is None && np.is_valid is None,
                }),
    {
        let mut ep = match self.edge_preview.take() {
            Some(ep) => ep,
            None => return false,
        };
        match to_node_id {
            Some(to) => {
                let ok = self.preview_validity(
                    ep.from_node_id.as_str(),
                    opt_ref(&ep.from_handle_id),
                    to,
                    to_handle_id,
                    validator,
                );
                ep.to_node_id = Some(owned(to));
                ep.to_handle_id = owned_opt(to_handle_id);
                ep.is_valid = Some(ok);
            },
            None => {
                ep.to_node_id = None;
                ep.to_handle_id = None;
                ep.is_valid = None;
            },
        }
        self.edge_preview = Some(ep);
        true
    }
}

/// The connection a preview with a target stands for.
fn preview_into_connection(ep: EdgePreview) -> (c: Connection)
    requires
        ep.to_node_id is Some,
    ensures
        is_preview_connection(c, ep),
{
    let EdgePreview { from_node_id, from_handle_id, from_handle_type, to_node_id, to_handle_id, is_valid: _ } = ep;
    let to = match to_node_id {
        Some(t) => t,
        None => from_node_id.clone(),
    };
    if from_handle_type == HandleType::Target {
        Connection { source: to, source_handle: to_handle_id, target: from_node_id, target_handle: from_handle_id }
    } else {
        Connection { source: from_node_id, source_handle: from_handle_id, target: to, target_handle: to_handle_id }
    }
}

/// The first position of `cur` among `ids`, or 0 when it is absent.
fn position_of(ids: &Vec<Option<String>>, cur: &Option<String>) -> (r: usize)
    ensures
        r as int == index_or_zero(opt_strings(ids@), opt_chars(*cur)),
        ids@.len() > 0 ==> r < ids@.len(),
{
    let ghost v = opt_strings(ids@);
    let ghost p = holds_at(v, opt_chars(*cur));
    let mut i: usize = 0;
    while i < ids.len()
        invariant
            i <= ids@.len(),
            v == opt_strings(ids@),
            p == holds_at(v, opt_chars(*cur)),
            first_in(p, i as int) is None,
        decreases ids@.len() - i,
    {
        if crate::strs::opt_eq(&ids[i], cur) {
            assert(p(i as int));
            assert(first_in(p, i + 1) == Some(i as int));
            proof {
                lemma_first_in_stable(p, i + 1, ids@.len() as int);
            }
            return i;
        }
        assert(!p(i as int));
        assert(first_in(p, i + 1) is None);
        i = i + 1;
    }
    0
}

/// One step forward or backward from `cur` among `len` positions.
fn step(len: usize, cur: usize, forward: bool) -> (r: usize)
    requires
        cur < len,
    ensures
        r as int == cycle_step(len as int, cur as int, forward),
        r < len,
{
    if forward {
        if cur + 1 == len {
            assert(next_index(Some(cur as int), len as int) == 0) by {
                vstd::arithmetic::div_mod::lemma_mod_self_0(len as int);
            }
            0
        } else {
            assert(next_index(Some(cur as int), len as int) == cur + 1) by {
                vstd::arithmetic::div_mod::lemma_small_mod((cur + 1) as nat, len as nat);
            }
            cur + 1
        }
    } else {
        proof {
            lemma_prev_index(cur as int, len as int);
        }
        if cur == 0 { len - 1 } else { cur - 1 }
    }
}

/// The index of the handle a lookup finds, as [`find_handle`] says.
fn find_index(hs: &Vec<Handle>, id: Option<&str>, fallback: HandleType) -> (r: Option<usize>)
    ensures
        match r {
            Some(i) => i < hs@.len() && find_handle(hs@, opt_str_chars(id), fallback) == Some(hs@[i as int]),
            None => find_handle(hs@, opt_str_chars(id), fallback) is None,
        },
{
    match id {
        Some(_) => match first_typed(hs, HandleType::Source, id) {
            Some(i) => {
                proof { lemma_first_in(crate::state::handles::typed_match(hs@, HandleType::Source, opt_str_chars(id)), hs@.len() as int); }
                Some(i)
            },
            None => {
                let r = first_typed(hs, HandleType::Target, id);
                proof { lemma_first_in(crate::state::handles::typed_match(hs@, HandleType::Target, opt_str_chars(id)), hs@.len() as int); }
                r
            },
        },
        None => {
            let r = first_typed(hs, fallback, None);
            proof { lemma_first_in(crate::state::handles::typed_match(hs@, fallback, None), hs@.len() as int); }
            r
        },
    }
}

/// Whether the handle a lookup finds can start a connection.
pub(crate) fn begin_allowed(hs: &Vec<Handle>, id: Option<&str>, t: HandleType) -> (r: bool)
    ensures
        r == match find_handle(hs@, opt_str_chars(id), t) {
            Some(h) => can_start(h),
            None => false,
        },
{
    match find_index(hs, id, t) {
        Some(i) => {
            let h = &hs[i];
            h.connectable && h.connectable_start && !h.hidden
        },
        None => false,
    }
}

} // verus!
