//! The walk up the parent chain ends within as many steps as there are
//! nodes, or never: a longer walk visits some node twice and goes round
//! from there for ever.

use vstd::prelude::*;
use vstd::set_lib::{lemma_int_range, lemma_len_subset, set_int_range};
use crate::state::hierarchy::{ancestor_walk, id_pred, node_by_id, walk_ends};
use crate::state::model::{first_in, lemma_first_in};
use crate::types::Node;

verus! {

/// One step up from `cur`: the parent ID of the first node with ID `cur`.
pub open spec fn step_up<N>(nodes: Seq<Node<N>>, cur: Seq<char>) -> Option<Seq<char>> {
    match node_by_id(nodes, cur) {
        Some(n) => match n.parent_id {
            Some(p) => Some(p@),
            None => None,
        },
        None => None,
    }
}

/// The ID reached after `t` steps up from `from`, while every step exists.
pub open spec fn walk_at<N>(nodes: Seq<Node<N>>, from: Seq<char>, t: nat) -> Option<Seq<char>>
    decreases t,
{
    if t == 0 {
        Some(from)
    } else {
        match walk_at(nodes, from, (t - 1) as nat) {
            Some(c) => step_up(nodes, c),
            None => None,
        }
    }
}

/// The walk goes on past `c`: it is reached, is not the target, and has a
/// step up.
pub open spec fn goes_on<N>(nodes: Seq<Node<N>>, target: Seq<char>, c: Option<Seq<char>>) -> bool {
    c matches Some(x) && x != target && step_up(nodes, x) is Some
}

/// The walk from `from` goes on past each of its first `t + 1` places.
pub open spec fn runs<N>(nodes: Seq<Node<N>>, from: Seq<char>, target: Seq<char>, t: nat) -> bool {
    forall|s: nat| s <= t ==> #[trigger] goes_on(nodes, target, walk_at(nodes, from, s))
}

/// The walk, read one step later, is the walk from the first step up.
proof fn lemma_walk_shift<N>(nodes: Seq<Node<N>>, from: Seq<char>, p: Seq<char>, t: nat)
    requires
        step_up(nodes, from) == Some(p),
    ensures
        walk_at(nodes, from, t + 1) == walk_at(nodes, p, t),
    decreases t,
{
    if t > 0 {
        lemma_walk_shift(nodes, from, p, (t - 1) as nat);
        assert(walk_at(nodes, from, t + 1) == match walk_at(nodes, from, t) {
            Some(c) => step_up(nodes, c),
            None => None,
        });
        assert(walk_at(nodes, p, t) == match walk_at(nodes, p, (t - 1) as nat) {
            Some(c) => step_up(nodes, c),
            None => None,
        });
    } else {
        assert(walk_at(nodes, from, 0) == Some(from));
        assert(walk_at(nodes, from, 1) == step_up(nodes, from));
    }
}

/// A walk that runs out of fuel goes on past each of its places.
proof fn lemma_none_runs<N>(nodes: Seq<Node<N>>, from: Seq<char>, target: Seq<char>, f: nat)
    requires
        ancestor_walk(nodes, from, target, f) is None,
    ensures
        runs(nodes, from, target, f),
    decreases f,
{
    let p = step_up(nodes, from)->0;
    assert(goes_on(nodes, target, walk_at(nodes, from, 0)));
    if f > 0 {
        lemma_none_runs(nodes, p, target, (f - 1) as nat);
        assert forall|s: nat| s <= f implies #[trigger] goes_on(nodes, target, walk_at(nodes, from, s)) by {
            if s > 0 {
                lemma_walk_shift(nodes, from, p, (s - 1) as nat);
                assert(goes_on(nodes, target, walk_at(nodes, p, (s - 1) as nat)));
            }
        }
    }
}

/// A walk that goes on past each of its first `f + 1` places runs out of
/// fuel `f`.
proof fn lemma_runs_none<N>(nodes: Seq<Node<N>>, from: Seq<char>, target: Seq<char>, f: nat)
    requires
        runs(nodes, from, target, f),
    ensures
        ancestor_walk(nodes, from, target, f) is None,
    decreases f,
{
    assert(goes_on(nodes, target, walk_at(nodes, from, 0)));
    if f > 0 {
        let p = step_up(nodes, from)->0;
        assert forall|s: nat| s <= (f - 1) as nat implies #[trigger] goes_on(nodes, target, walk_at(nodes, p, s)) by {
            lemma_walk_shift(nodes, from, p, s);
            assert(goes_on(nodes, target, walk_at(nodes, from, s + 1)));
        }
        lemma_runs_none(nodes, p, target, (f - 1) as nat);
    }
}

/// The index of the node a place of the walk stands on.
pub open spec fn place_index<N>(nodes: Seq<Node<N>>, from: Seq<char>, t: nat) -> int {
    first_in(id_pred(nodes, walk_at(nodes, from, t)->0), nodes.len() as int)->0
}

/// A place the walk goes on past stands on a node with that ID.
proof fn lemma_place_index<N>(nodes: Seq<Node<N>>, from: Seq<char>, target: Seq<char>, t: nat)
    requires
        goes_on(nodes, target, walk_at(nodes, from, t)),
    ensures
        0 <= place_index(nodes, from, t) < nodes.len(),
        nodes[place_index(nodes, from, t)].id@ == walk_at(nodes, from, t)->0,
{
    let c = walk_at(nodes, from, t)->0;
    lemma_first_in(id_pred(nodes, c), nodes.len() as int);
}

/// Two places on the same ID stay together from there on.
proof fn lemma_walk_repeats<N>(nodes: Seq<Node<N>>, from: Seq<char>, a: nat, b: nat, k: nat)
    requires
        walk_at(nodes, from, a) == walk_at(nodes, from, b),
    ensures
        walk_at(nodes, from, a + k) == walk_at(nodes, from, b + k),
    decreases k,
{
    if k > 0 {
        lemma_walk_repeats(nodes, from, a, b, (k - 1) as nat);
        assert(walk_at(nodes, from, a + k) == match walk_at(nodes, from, (a + k - 1) as nat) {
            Some(c) => step_up(nodes, c),
            None => None,
        });
        assert(walk_at(nodes, from, b + k) == match walk_at(nodes, from, (b + k - 1) as nat) {
            Some(c) => step_up(nodes, c),
            None => None,
        });
    }
}

/// A walk that goes on past its first `nodes.len() + 1` places stands on
/// some node twice.
proof fn lemma_pigeonhole<N>(nodes: Seq<Node<N>>, from: Seq<char>, target: Seq<char>)
    requires
        runs(nodes, from, target, nodes.len()),
    ensures
        exists|a: nat, b: nat| a < b <= nodes.len() && walk_at(nodes, from, a) == walk_at(nodes, from, b),
{
    let n = nodes.len();
    let js = Seq::new(n + 1, |t: int| place_index(nodes, from, t as nat));
    assert forall|t: int| 0 <= t < js.len() implies 0 <= #[trigger] js[t] < n by {
        assert(goes_on(nodes, target, walk_at(nodes, from, t as nat)));
        lemma_place_index(nodes, from, target, t as nat);
    }
    if js.no_duplicates() {
        js.unique_seq_to_set();
        lemma_int_range(0, n as int);
        assert(js.to_set().subset_of(set_int_range(0, n as int)));
        lemma_len_subset(js.to_set(), set_int_range(0, n as int));
        assert(false);
    } else {
        let (i, j) = choose|i: int, j: int| 0 <= i < js.len() && 0 <= j < js.len() && i != j && js[i] == js[j];
        let (a, b) = if i < j { (i as nat, j as nat) } else { (j as nat, i as nat) };
        assert(goes_on(nodes, target, walk_at(nodes, from, a)));
        assert(goes_on(nodes, target, walk_at(nodes, from, b)));
        lemma_place_index(nodes, from, target, a);
        lemma_place_index(nodes, from, target, b);
        assert(js[a as int] == js[b as int]);
        assert(walk_at(nodes, from, a) == walk_at(nodes, from, b));
    }
}

/// A walk that goes on past its first `nodes.len() + 1` places goes on for
/// ever.
proof fn lemma_runs_for_ever<N>(nodes: Seq<Node<N>>, from: Seq<char>, target: Seq<char>, t: nat)
    requires
        runs(nodes, from, target, nodes.len()),
    ensures
        runs(nodes, from, target, t),
{
    lemma_pigeonhole(nodes, from, target);
    let (a, b) = choose|a: nat, b: nat| a < b <= nodes.len() && walk_at(nodes, from, a) == walk_at(nodes, from, b);
    assert forall|s: nat| s <= t implies #[trigger] goes_on(nodes, target, walk_at(nodes, from, s)) by {
        lemma_goes_on_at(nodes, from, target, a, b, s);
    }
}

/// Each place of a walk that repeats between `a` and `b`, and goes on past
/// its first `b + 1` places, goes on.
proof fn lemma_goes_on_at<N>(nodes: Seq<Node<N>>, from: Seq<char>, target: Seq<char>, a: nat, b: nat, s: nat)
    requires
        a < b <= nodes.len(),
        walk_at(nodes, from, a) == walk_at(nodes, from, b),
        runs(nodes, from, target, nodes.len()),
    ensures
        goes_on(nodes, target, walk_at(nodes, from, s)),
    decreases s,
{
    if s > b {
        let k = (s - b) as nat;
        lemma_walk_repeats(nodes, from, a, b, k);
        lemma_goes_on_at(nodes, from, target, a, b, a + k);
    }
}

/// The walk up from `from` that has not ended after as many steps as there
/// are nodes never ends.
pub proof fn lemma_walk_bound<N>(nodes: Seq<Node<N>>, from: Seq<char>, target: Seq<char>)
    requires
        ancestor_walk(nodes, from, target, nodes.len()) is None,
    ensures
        !walk_ends(nodes, from, target),
{
    lemma_none_runs(nodes, from, target, nodes.len());
    assert forall|f: nat| !(#[trigger] ancestor_walk(nodes, from, target, f) is Some) by {
        lemma_runs_for_ever(nodes, from, target, f);
        lemma_runs_none(nodes, from, target, f);
    }
}

} // verus!
