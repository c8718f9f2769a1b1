//! Keeping the elements of a sequence that a mask selects, in order.

use vstd::prelude::*;

verus! {

/// The elements of `s` whose mask entry is `true`, in order.
pub open spec fn masked<T>(s: Seq<T>, m: Seq<bool>) -> Seq<T>
    decreases s.len(),
{
    if s.len() == 0 || m.len() == 0 {
        Seq::empty()
    } else {
        let rest = masked(s.drop_last(), m.drop_last());
        if m.last() { rest.push(s.last()) } else { rest }
    }
}

/// The positions in `s` that `masked(s, m)` keeps, in increasing order.
pub open spec fn masked_indices(n: nat, m: Seq<bool>) -> Seq<int>
    decreases n,
{
    if n == 0 || m.len() == 0 {
        Seq::empty()
    } else {
        let rest = masked_indices((n - 1) as nat, m.drop_last());
        if m.last() { rest.push(n - 1) } else { rest }
    }
}

/// Each kept element is the element of `s` at a strictly increasing kept
/// position, and every position whose mask entry is `true` is kept.
pub proof fn lemma_masked<T>(s: Seq<T>, m: Seq<bool>)
    requires
        s.len() == m.len(),
    ensures
        masked_indices(s.len(), m).len() == masked(s, m).len(),
        forall|k: int| 0 <= k < masked(s, m).len() ==>
            0 <= #[trigger] masked_indices(s.len(), m)[k] < s.len(),
        forall|k: int| 0 <= k < masked(s, m).len() ==>
            m[#[trigger] masked_indices(s.len(), m)[k]],
        forall|k: int| 0 <= k < masked(s, m).len() ==>
            #[trigger] masked(s, m)[k] == s[masked_indices(s.len(), m)[k]],
        forall|k1: int, k2: int| 0 <= k1 < k2 < masked(s, m).len()
            ==> masked_indices(s.len(), m)[k1] < masked_indices(s.len(), m)[k2],
        forall|i: int| 0 <= i < s.len() && #[trigger] m[i]
            ==> exists|k: int| 0 <= k < masked(s, m).len() && masked_indices(s.len(), m)[k] == i,
    decreases s.len(),
{
    if s.len() > 0 {
        let s0 = s.drop_last();
        let m0 = m.drop_last();
        lemma_masked(s0, m0);
                                        assert(((s.len() - 1) as nat) == s0.len());
        if m.last() {
            assert(masked_indices(s.len(), m) == masked_indices(s0.len(), m0).push(s.len() - 1));
            assert(masked(s, m) == masked(s0, m0).push(s.last()));
        } else {
            assert(masked_indices(s.len(), m) == masked_indices(s0.len(), m0));
            assert(masked(s, m) == masked(s0, m0));
        }
        assert forall|i: int| 0 <= i < s.len() && #[trigger] m[i]
            implies exists|k: int| 0 <= k < masked(s, m).len() && masked_indices(s.len(), m)[k] == i by {
            if i == s.len() - 1 {
                assert(masked_indices(s.len(), m)[masked_indices(s.len(), m).len() - 1] == i);
            } else {
                assert(m0[i]);
                let k = choose|k: int| 0 <= k < masked(s0, m0).len() && masked_indices(s0.len(), m0)[k] == i;
                assert(masked_indices(s.len(), m)[k] == i);
            }
        }
        assert forall|k: int| 0 <= k < masked(s, m).len() implies
            0 <= #[trigger] masked_indices(s.len(), m)[k] < s.len() && m[masked_indices(s.len(), m)[k]] && masked(s, m)[k] == s[masked_indices(s.len(), m)[k]] by {
            if k < masked(s0, m0).len() {
                assert(masked(s0, m0)[k] == s0[masked_indices(s0.len(), m0)[k]]);
                assert(masked(s, m)[k] == masked(s0, m0)[k]);
                assert(masked_indices(s.len(), m)[k] == masked_indices(s0.len(), m0)[k]);
                assert(m[masked_indices(s0.len(), m0)[k]] == m0[masked_indices(s0.len(), m0)[k]]);
                assert(s[masked_indices(s0.len(), m0)[k]] == s0[masked_indices(s0.len(), m0)[k]]);
            } else {
                assert(masked_indices(s.len(), m)[k] == s.len() - 1);
                assert(masked(s, m)[k] == s.last());
            }
        }
        assert forall|k1: int, k2: int| 0 <= k1 < k2 < masked(s, m).len() implies masked_indices(s.len(), m)[k1] < masked_indices(s.len(), m)[k2] by {
            if k2 < masked(s0, m0).len() {
                assert(masked_indices(s.len(), m)[k1] == masked_indices(s0.len(), m0)[k1]);
            } else {
                assert(masked(s0, m0)[k1] == s0[masked_indices(s0.len(), m0)[k1]]);
            }
        }
    } else {
        assert(masked(s, m).len() == 0);
    }
}

/// Keeps the elements of `v` whose mask entry is `true`, in order.
pub fn retain_masked<T>(v: Vec<T>, keep: &Vec<bool>) -> (r: Vec<T>)
    requires
        keep@.len() == v@.len(),
    ensures
        r@ == masked(v@, keep@),
{
    let ghost s = v@;
    let n = v.len();
    let mut out: Vec<T> = Vec::new();
    let mut i: usize = 0;
    for x in it: v.into_iter()
        invariant
            keep@.len() == s.len(),
            it.seq() == s,
            i == it.index(),
            i <= s.len(),
            s.len() == n,
            out@ == masked(s.take(i as int), keep@.take(i as int)),
    {
        proof {
            assert(s.take(i + 1).drop_last() =~= s.take(i as int));
            assert(keep@.take(i + 1).drop_last() =~= keep@.take(i as int));
        }
        assert(i < s.len());
        if keep[i] {
            out.push(x);
        }
        i = i + 1;
    }
    proof {
        assert(s.take(s.len() as int) =~= s);
        assert(keep@.take(s.len() as int) =~= keep@);
    }
    out
}

/// The mask with every entry flipped.
pub open spec fn negated(m: Seq<bool>) -> Seq<bool> {
    Seq::new(m.len(), |i: int| !m[i])
}

/// Splits `v` into the elements whose mask entry is `true` and the rest,
/// each in order.
pub fn split_masked<T>(v: Vec<T>, keep: &Vec<bool>) -> (r: (Vec<T>, Vec<T>))
    requires
        keep@.len() == v@.len(),
    ensures
        r.0@ == masked(v@, keep@),
        r.1@ == masked(v@, negated(keep@)),
{
    let ghost s = v@;
    let ghost nk = negated(keep@);
    let n = v.len();
    let mut kept: Vec<T> = Vec::new();
    let mut dropped: Vec<T> = Vec::new();
    let mut i: usize = 0;
    for x in it: v.into_iter()
        invariant
            keep@.len() == s.len(),
            nk == negated(keep@),
            it.seq() == s,
            i == it.index(),
            i <= s.len(),
            s.len() == n,
            kept@ == masked(s.take(i as int), keep@.take(i as int)),
            dropped@ == masked(s.take(i as int), nk.take(i as int)),
    {
        proof {
            assert(s.take(i + 1).drop_last() =~= s.take(i as int));
            assert(keep@.take(i + 1).drop_last() =~= keep@.take(i as int));
            assert(nk.take(i + 1).drop_last() =~= nk.take(i as int));
        }
        assert(i < s.len());
        if keep[i] {
            kept.push(x);
        } else {
            dropped.push(x);
        }
        i = i + 1;
    }
    proof {
        assert(s.take(s.len() as int) =~= s);
        assert(keep@.take(s.len() as int) =~= keep@);
        assert(nk.take(s.len() as int) =~= nk);
    }
    (kept, dropped)
}

} // verus!
