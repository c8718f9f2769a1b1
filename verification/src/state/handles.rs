//! The handles a node offers and the lookups that connection previews make
//! on them: finding a handle by ID, and listing the handles that can start or
//! end a connection.

use vstd::prelude::*;
use crate::state::model::{first_in, lemma_first_in_stable};
use crate::strs::{copy_opt, opt_chars, opt_is, opt_str_chars};
use crate::types::{ConnectionMode, Handle, HandleType, Node};

verus! {

/// The handles a node offers: its own, or its default source and target
/// pair when it defines none.
pub open spec fn node_handles<N>(n: Node<N>) -> Seq<Handle> {
    if n.handles@.len() == 0 {
        seq![
            Handle::new_spec(n.source_position, HandleType::Source),
            Handle::new_spec(n.target_position, HandleType::Target),
        ]
    } else {
        n.handles@
    }
}

/// A connection can start from the handle.
pub open spec fn can_start(h: Handle) -> bool {
    h.connectable && h.connectable_start && !h.hidden
}

/// A connection can end on the handle.
pub open spec fn can_end(h: Handle) -> bool {
    h.connectable && h.connectable_end && !h.hidden
}

/// The handle carries the wanted ID; `None` wants any handle.
pub open spec fn id_matches(h: Handle, wanted: Option<Seq<char>>) -> bool {
    match wanted {
        None => true,
        Some(w) => opt_chars(h.id) == Some(w),
    }
}

/// The predicate "handle `i` has type `t` and the wanted ID".
pub open spec fn typed_match(hs: Seq<Handle>, t: HandleType, wanted: Option<Seq<char>>) -> spec_fn(int) -> bool {
    |i: int| hs[i].handle_type == t && id_matches(hs[i], wanted)
}

/// The handle a lookup finds: with an ID, the first source handle carrying
/// it, else the first target handle carrying it; without one, the first
/// handle of type `fallback`.
pub open spec fn find_handle(hs: Seq<Handle>, id: Option<Seq<char>>, fallback: HandleType) -> Option<Handle> {
    match id {
        Some(_) => match first_in(typed_match(hs, HandleType::Source, id), hs.len() as int) {
            Some(i) => Some(hs[i]),
            None => match first_in(typed_match(hs, HandleType::Target, id), hs.len() as int) {
                Some(i) => Some(hs[i]),
                None => None,
            },
        },
        None => match first_in(typed_match(hs, fallback, None), hs.len() as int) {
            Some(i) => Some(hs[i]),
            None => None,
        },
    }
}

/// The handles of type `t` that can end a connection.
pub open spec fn ends_of(t: HandleType) -> spec_fn(Handle) -> bool {
    |h: Handle| h.handle_type == t && can_end(h)
}

/// The handles of type `t` that can start a connection.
pub open spec fn starts_of(t: HandleType) -> spec_fn(Handle) -> bool {
    |h: Handle| h.handle_type == t && can_start(h)
}

/// A handle's ID as characters.
pub open spec fn id_view() -> spec_fn(Handle) -> Option<Seq<char>> {
    |h: Handle| opt_chars(h.id)
}

/// The IDs of the handles of `hs` that pass `p`, in order.
pub open spec fn ids_where(hs: Seq<Handle>, p: spec_fn(Handle) -> bool) -> Seq<Option<Seq<char>>> {
    hs.filter(p).map_values(id_view())
}

/// The IDs of the handles a connection started from a handle of type `from`
/// may end on, in order: the source handles and then the target handles,
/// only those of the opposite type when the mode is strict.
pub open spec fn target_ids(hs: Seq<Handle>, from: HandleType, mode: ConnectionMode) -> Seq<Option<Seq<char>>> {
    let loose = mode == ConnectionMode::Loose;
    let sources = if loose || from == HandleType::Target {
        ids_where(hs, ends_of(HandleType::Source))
    } else {
        Seq::empty()
    };
    let targets = if loose || from == HandleType::Source {
        ids_where(hs, ends_of(HandleType::Target))
    } else {
        Seq::empty()
    };
    sources + targets
}

/// The ID a preview aims at among candidate IDs: with an ID wanted, that ID
/// if a candidate carries it; without one, the first candidate's.
pub open spec fn pick_id(ids: Seq<Option<Seq<char>>>, wanted: Option<Seq<char>>) -> Option<Option<Seq<char>>> {
    match wanted {
        None => if ids.len() > 0 { Some(ids[0]) } else { None },
        Some(w) => if ids.contains(Some(w)) { Some(Some(w)) } else { None },
    }
}

/// Optional strings as optional character sequences.
pub open spec fn opt_strings(s: Seq<Option<String>>) -> Seq<Option<Seq<char>>> {
    s.map_values(|o: Option<String>| opt_chars(o))
}

/// The handles of a node, materialized: its own, or its default pair.
pub fn handles_of_node<N>(n: &Node<N>) -> (r: Option<Vec<Handle>>)
    ensures
        n.handles@.len() == 0 ==> (r matches Some(v) && v@ == node_handles(*n)),
        n.handles@.len() != 0 ==> r is None,
{
    if n.handles.len() == 0 {
        let mut v: Vec<Handle> = Vec::new();
        v.push(Handle::source(n.source_position));
        v.push(Handle::target(n.target_position));
        assert(v@ =~= node_handles(*n));
        Some(v)
    } else {
        None
    }
}

/// The index of the first handle of type `t` carrying the wanted ID.
pub fn first_typed(hs: &Vec<Handle>, t: HandleType, wanted: Option<&str>) -> (r: Option<usize>)
    ensures
        match r {
            Some(i) => first_in(typed_match(hs@, t, opt_str_chars(wanted)), hs@.len() as int) == Some(i as int),
            None => first_in(typed_match(hs@, t, opt_str_chars(wanted)), hs@.len() as int) is None,
        },
{
    let ghost p = typed_match(hs@, t, opt_str_chars(wanted));
    let mut i: usize = 0;
    while i < hs.len()
        invariant
            i <= hs@.len(),
            p == typed_match(hs@, t, opt_str_chars(wanted)),
            first_in(p, i as int) is None,
        decreases hs@.len() - i,
    {
        let h = &hs[i];
        let matches = h.handle_type == t && match wanted {
            None => true,
            Some(w) => opt_is(&h.id, Some(w)),
        };
        if matches {
            assert(p(i as int));
            assert(first_in(p, i + 1) == Some(i as int));
            proof {
                lemma_first_in_stable(p, i + 1, hs@.len() as int);
            }
            return Some(i);
        }
        assert(!p(i as int));
        assert(first_in(p, i + 1) is None);
        i = i + 1;
    }
    None
}

/// The IDs of the handles of `hs` of type `t` that can start (`start`) or
/// end (`!start`) a connection, in order.
pub fn collect_ids(hs: &Vec<Handle>, t: HandleType, start: bool) -> (r: Vec<Option<String>>)
    ensures
        opt_strings(r@) == ids_where(hs@, if start { starts_of(t) } else { ends_of(t) }),
{
    let ghost p = if start { starts_of(t) } else { ends_of(t) };
    let mut out: Vec<Option<String>> = Vec::new();
    let mut i: usize = 0;
    while i < hs.len()
        invariant
            i <= hs@.len(),
            p == (if start { starts_of(t) } else { ends_of(t) }),
            opt_strings(out@) == ids_where(hs@.take(i as int), p),
        decreases hs@.len() - i,
    {
        let h = &hs[i];
        let ok = h.handle_type == t && h.connectable && !h.hidden
            && (if start { h.connectable_start } else { h.connectable_end });
        proof {
            assert(hs@.take(i + 1) =~= hs@.take(i as int).push(hs@[i as int]));
            hs@.take(i as int).lemma_filter_push(hs@[i as int], p);
        }
        if ok {
            assert(p(hs@[i as int]));
            let id = copy_opt(&h.id);
            let ghost before = out@;
            out.push(id);
            proof {
                let f = id_view();
                let s = hs@.take(i as int).filter(p);
                assert(s.push(hs@[i as int]).map_values(f) =~= s.map_values(f).push(f(hs@[i as int])));
                assert(opt_strings(out@) =~= opt_strings(before).push(opt_chars(id)));
            }
        } else {
            assert(!p(hs@[i as int]));
        }
        i = i + 1;
    }
    assert(hs@.take(hs@.len() as int) =~= hs@);
    out
}

/// The IDs of the handles a connection started from a handle of type
/// `from` may end on, in order.
pub fn collect_target_ids(hs: &Vec<Handle>, from: HandleType, mode: ConnectionMode) -> (r: Vec<Option<String>>)
    ensures
        opt_strings(r@) == target_ids(hs@, from, mode),
{
    let loose = mode == ConnectionMode::Loose;
    let mut out: Vec<Option<String>> = if loose || from == HandleType::Target {
        collect_ids(hs, HandleType::Source, false)
    } else {
        Vec::new()
    };
    if loose || from == HandleType::Source {
        let mut more = collect_ids(hs, HandleType::Target, false);
        let ghost a = out@;
        let ghost b = more@;
        out.append(&mut more);
        assert(opt_strings(out@) =~= opt_strings(a) + opt_strings(b));
    }
    assert(opt_strings(out@) =~= target_ids(hs@, from, mode));
    out
}

/// Chooses among candidate IDs as [`pick_id`] says.
pub fn pick_from(ids: &Vec<Option<String>>, wanted: Option<&str>) -> (r: Option<Option<String>>)
    ensures
        match r {
            Some(o) => pick_id(opt_strings(ids@), opt_str_chars(wanted)) == Some(opt_chars(o)),
            None => pick_id(opt_strings(ids@), opt_str_chars(wanted)) is None,
        },
{
    let ghost view = opt_strings(ids@);
    match wanted {
        None => {
            if ids.len() > 0 {
                let o = copy_opt(&ids[0]);
                assert(view[0] == opt_chars(ids@[0]));
                Some(o)
            } else {
                None
            }
        },
        Some(w) => {
            let mut i: usize = 0;
            while i < ids.len()
                invariant
                    i <= ids@.len(),
                    view == opt_strings(ids@),
                    wanted == Some(w),
                    forall|k: int| 0 <= k < i ==> view[k] != Some(w@),
                decreases ids@.len() - i,
            {
                if opt_is(&ids[i], Some(w)) {
                    assert(view[i as int] == Some(w@));
                    assert(view.contains(Some(w@)));
                    let o = Some(crate::strs::owned(w));
                    return Some(o);
                }
                i = i + 1;
            }
            assert(!view.contains(Some(w@)));
            None
        },
    }
}

/// The handle an edge end attaches to, by index: the handle carrying the
/// ID (of type `t` in strict mode; in loose mode the first source handle
/// carrying it, else the first target handle), falling back to the first
/// handle of type `t`. `None` when the node has no handle of type `t` to
/// fall back on.
pub open spec fn get_handle(hs: Seq<Handle>, id: Option<Seq<char>>, t: HandleType, mode: ConnectionMode) -> Option<int> {
    let by_id = match id {
        None => None,
        Some(_) => match mode {
            ConnectionMode::Strict => first_in(typed_match(hs, t, id), hs.len() as int),
            ConnectionMode::Loose => match first_in(typed_match(hs, HandleType::Source, id), hs.len() as int) {
                Some(i) => Some(i),
                None => first_in(typed_match(hs, HandleType::Target, id), hs.len() as int),
            },
        },
    };
    match by_id {
        Some(i) => Some(i),
        None => first_in(typed_match(hs, t, None), hs.len() as int),
    }
}

/// Finds the handle an edge end attaches to, as [`get_handle`] says.
pub fn get_handle_index(hs: &Vec<Handle>, id: Option<&str>, t: HandleType, mode: ConnectionMode) -> (r: Option<usize>)
    ensures
        match r {
            Some(i) => get_handle(hs@, opt_str_chars(id), t, mode) == Some(i as int),
            None => get_handle(hs@, opt_str_chars(id), t, mode) is None,
        },
{
    let by_id = match id {
        None => None,
        Some(_) => match mode {
            ConnectionMode::Strict => first_typed(hs, t, id),
            ConnectionMode::Loose => match first_typed(hs, HandleType::Source, id) {
                Some(i) => Some(i),
                None => first_typed(hs, HandleType::Target, id),
            },
        },
    };
    match by_id {
        Some(i) => Some(i),
        None => first_typed(hs, t, None),
    }
}

} // verus!
