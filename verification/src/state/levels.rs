//! The order in which positions are resolved through the parent tree:
//! breadth first from the roots, level by level, and, per level, the
//! parents whose children a parent may have to grow around.

use vstd::prelude::*;
use vstd::seq_lib::lemma_no_dup_in_concat;
use vstd::set_lib::{lemma_int_range, lemma_len_subset, set_int_range};
use crate::state::hierarchy::{ancestor_walk, id_pred, lemma_found_first, reparented, walk_meets};
use crate::state::model::{first_in, has_node, lemma_first_in, lemma_first_in_agree, node_ids_unique};
use crate::strs::opt_chars;
use crate::state::tree::{children_of, roots_of};
use crate::state::zorder::parent_index;
use crate::state::Flow;
use crate::types::Node;

verus! {

/// The children of the nodes in `f`, parent by parent, each parent's in
/// node order.
pub open spec fn flat_children<N>(nodes: Seq<Node<N>>, f: Seq<usize>) -> Seq<usize>
    decreases f.len(),
{
    if f.len() == 0 {
        Seq::empty()
    } else {
        flat_children(nodes, f.drop_last()) + children_of(nodes, f.last() as int)
    }
}

/// The nodes reached at level `k` of a breadth-first walk from the roots.
pub open spec fn frontier<N>(nodes: Seq<Node<N>>, k: nat) -> Seq<usize>
    decreases k,
{
    if k == 0 {
        roots_of(nodes)
    } else {
        flat_children(nodes, frontier(nodes, (k - 1) as nat))
    }
}

/// The nodes of `f` that have children.
pub open spec fn with_children<N>(nodes: Seq<Node<N>>, f: Seq<usize>) -> Seq<usize> {
    f.filter(|p: usize| children_of(nodes, p as int).len() > 0)
}

/// The nodes of the first `k` levels, level after level.
pub open spec fn order_upto<N>(nodes: Seq<Node<N>>, k: nat) -> Seq<usize>
    decreases k,
{
    if k == 0 {
        Seq::empty()
    } else {
        order_upto(nodes, (k - 1) as nat) + frontier(nodes, (k - 1) as nat)
    }
}

/// For each of the first `k` levels that holds a parent, the parents it holds.
pub open spec fn levels_upto<N>(nodes: Seq<Node<N>>, k: nat) -> Seq<Seq<usize>>
    decreases k,
{
    if k == 0 {
        Seq::empty()
    } else {
        let lp = with_children(nodes, frontier(nodes, (k - 1) as nat));
        if lp.len() > 0 {
            levels_upto(nodes, (k - 1) as nat).push(lp)
        } else {
            levels_upto(nodes, (k - 1) as nat)
        }
    }
}

/// Every node reached from the roots, level after level: the order in
/// which absolute positions are resolved, each node after its parent.
pub open spec fn top_down_order<N>(nodes: Seq<Node<N>>) -> Seq<usize> {
    order_upto(nodes, nodes.len())
}

/// The parents of each level that has any, from the roots' level down.
pub open spec fn expansion_levels<N>(nodes: Seq<Node<N>>) -> Seq<Seq<usize>> {
    levels_upto(nodes, nodes.len())
}

/// Node `x` is `k` parent steps below a root.
pub open spec fn depth_is<N>(nodes: Seq<Node<N>>, x: int, k: nat) -> bool
    decreases k,
{
    match parent_index(nodes, x) {
        None => k == 0,
        Some(p) => k > 0 && depth_is(nodes, p, (k - 1) as nat),
    }
}

/// The nodes not among the first `k` levels.
pub open spec fn unvisited<N>(nodes: Seq<Node<N>>, k: nat) -> Set<int> {
    Set::new(|x: int| 0 <= x < nodes.len() && !order_upto(nodes, k).contains(x as usize))
}

/// A parent index is an index of the graph.
proof fn lemma_parent_in_range<N>(nodes: Seq<Node<N>>, x: int)
    ensures
        parent_index(nodes, x) matches Some(p) ==> 0 <= p < nodes.len(),
{
    match nodes[x].parent_id {
        Some(pid) => lemma_first_in(id_pred(nodes, pid@), nodes.len() as int),
        None => {},
    }
}

/// A node has one depth at most.
proof fn lemma_depth_unique<N>(nodes: Seq<Node<N>>, x: int, k: nat, j: nat)
    requires
        depth_is(nodes, x, k),
        depth_is(nodes, x, j),
    ensures
        k == j,
    decreases k,
{
    if let Some(p) = parent_index(nodes, x) {
        lemma_depth_unique(nodes, p, (k - 1) as nat, (j - 1) as nat);
    }
}

/// The children of `p` are nodes of the graph whose parent is `p`.
proof fn lemma_children_members<N>(nodes: Seq<Node<N>>, p: int)
    ensures
        forall|i: int| 0 <= i < children_of(nodes, p).len() ==> {
            &&& (#[trigger] children_of(nodes, p)[i]) < nodes.len()
            &&& parent_index(nodes, children_of(nodes, p)[i] as int) == Some(p)
        },
{
    let idx = Seq::new(nodes.len(), |i: int| i as usize);
    let pred = |i: usize| parent_index(nodes, i as int) == Some(p);
    broadcast use vstd::seq_lib::group_filter_ensures;
    assert forall|i: int| 0 <= i < children_of(nodes, p).len() implies
        (#[trigger] children_of(nodes, p)[i]) < nodes.len() by {
        let e = children_of(nodes, p)[i];
        assert(idx.filter(pred).contains(e));
        idx.lemma_filter_contains_rev(pred, e);
        let j = choose|j: int| 0 <= j < idx.len() && idx[j] == e;
        assert(idx[j] == j as usize);
    }
}

/// The roots are nodes of the graph without a parent.
proof fn lemma_roots_members<N>(nodes: Seq<Node<N>>)
    ensures
        forall|i: int| 0 <= i < roots_of(nodes).len() ==> {
            &&& (#[trigger] roots_of(nodes)[i]) < nodes.len()
            &&& parent_index(nodes, roots_of(nodes)[i] as int) is None
        },
{
    let idx = Seq::new(nodes.len(), |i: int| i as usize);
    let pred = |i: usize| parent_index(nodes, i as int) is None;
    broadcast use vstd::seq_lib::group_filter_ensures;
    assert forall|i: int| 0 <= i < roots_of(nodes).len() implies (#[trigger] roots_of(nodes)[i]) < nodes.len() by {
        let e = roots_of(nodes)[i];
        assert(idx.filter(pred).contains(e));
        idx.lemma_filter_contains_rev(pred, e);
        let j = choose|j: int| 0 <= j < idx.len() && idx[j] == e;
        assert(idx[j] == j as usize);
    }
}

/// Each child of the nodes in `f` is a node of the graph whose parent is in `f`.
proof fn lemma_flat_children_members<N>(nodes: Seq<Node<N>>, f: Seq<usize>)
    ensures
        forall|i: int| 0 <= i < flat_children(nodes, f).len() ==> {
            &&& (#[trigger] flat_children(nodes, f)[i]) < nodes.len()
            &&& exists|j: int| 0 <= j < f.len()
                && parent_index(nodes, flat_children(nodes, f)[i] as int) == Some(f[j] as int)
        },
    decreases f.len(),
{
    if f.len() > 0 {
        let init = f.drop_last();
        lemma_flat_children_members(nodes, init);
        lemma_children_members(nodes, f.last() as int);
        let a = flat_children(nodes, init);
        let b = children_of(nodes, f.last() as int);
        assert forall|i: int| 0 <= i < flat_children(nodes, f).len() implies {
            &&& (#[trigger] flat_children(nodes, f)[i]) < nodes.len()
            &&& exists|j: int| 0 <= j < f.len()
                && parent_index(nodes, flat_children(nodes, f)[i] as int) == Some(f[j] as int)
        } by {
            if i < a.len() {
                assert(flat_children(nodes, f)[i] == a[i]);
                let j = choose|j: int| 0 <= j < init.len() && parent_index(nodes, a[i] as int) == Some(init[j] as int);
                assert(f[j] == init[j]);
            } else {
                assert(flat_children(nodes, f)[i] == b[i - a.len()]);
                assert(parent_index(nodes, b[i - a.len()] as int) == Some(f[f.len() - 1] as int));
            }
        }
    }
}

/// The nodes of level `k` are nodes of the graph `k` steps below a root.
proof fn lemma_frontier_depth<N>(nodes: Seq<Node<N>>, k: nat)
    ensures
        forall|i: int| 0 <= i < frontier(nodes, k).len() ==> {
            &&& (#[trigger] frontier(nodes, k)[i]) < nodes.len()
            &&& depth_is(nodes, frontier(nodes, k)[i] as int, k)
        },
    decreases k,
{
    if k == 0 {
        lemma_roots_members(nodes);
    } else {
        let prev = frontier(nodes, (k - 1) as nat);
        lemma_frontier_depth(nodes, (k - 1) as nat);
        lemma_flat_children_members(nodes, prev);
        assert forall|i: int| 0 <= i < frontier(nodes, k).len() implies {
            &&& (#[trigger] frontier(nodes, k)[i]) < nodes.len()
            &&& depth_is(nodes, frontier(nodes, k)[i] as int, k)
        } by {
            let x = frontier(nodes, k)[i];
            let j = choose|j: int| 0 <= j < prev.len() && parent_index(nodes, x as int) == Some(prev[j] as int);
            assert(depth_is(nodes, prev[j] as int, (k - 1) as nat));
        }
    }
}

/// Each node of the first `k` levels is fewer than `k` steps below a root.
proof fn lemma_order_depth<N>(nodes: Seq<Node<N>>, k: nat, z: usize)
    requires
        order_upto(nodes, k).contains(z),
    ensures
        exists|j: nat| j < k && depth_is(nodes, z as int, j),
    decreases k,
{
    let prev = order_upto(nodes, (k - 1) as nat);
    let f = frontier(nodes, (k - 1) as nat);
    let i = choose|i: int| 0 <= i < order_upto(nodes, k).len() && order_upto(nodes, k)[i] == z;
    if i < prev.len() {
        assert(prev[i] == z);
        lemma_order_depth(nodes, (k - 1) as nat, z);
        let j = choose|j: nat| j < k - 1 && depth_is(nodes, z as int, j);
        assert(j < k);
    } else {
        lemma_frontier_depth(nodes, (k - 1) as nat);
        assert(f[i - prev.len()] == z);
        assert(depth_is(nodes, z as int, (k - 1) as nat));
    }
}

/// The nodes not among the first `k` levels are finitely many.
proof fn lemma_unvisited_finite<N>(nodes: Seq<Node<N>>, k: nat)
    ensures
        unvisited(nodes, k).finite(),
        unvisited(nodes, k).len() <= nodes.len(),
{
    lemma_int_range(0, nodes.len() as int);
    lemma_len_subset(unvisited(nodes, k), set_int_range(0, nodes.len() as int));
}

/// A level that holds a node leaves fewer nodes unvisited.
proof fn lemma_unvisited_shrinks<N>(nodes: Seq<Node<N>>, k: nat)
    requires
        frontier(nodes, k).len() > 0,
    ensures
        unvisited(nodes, k + 1).len() < unvisited(nodes, k).len(),
{
    let y = frontier(nodes, k)[0];
    lemma_frontier_depth(nodes, k);
    lemma_unvisited_finite(nodes, k);
    if order_upto(nodes, k).contains(y) {
        lemma_order_depth(nodes, k, y);
        let j = choose|j: nat| j < k && depth_is(nodes, y as int, j);
        lemma_depth_unique(nodes, y as int, j, k);
    }
    assert(unvisited(nodes, k).contains(y as int));
    assert(order_upto(nodes, k + 1) == order_upto(nodes, k) + frontier(nodes, k));
    assert forall|x: int| #[trigger] unvisited(nodes, k + 1).contains(x) implies unvisited(nodes, k).remove(y as int).contains(x) by {
        if order_upto(nodes, k).contains(x as usize) {
            let i = choose|i: int| 0 <= i < order_upto(nodes, k).len() && order_upto(nodes, k)[i] == x as usize;
            assert(order_upto(nodes, k + 1)[i] == x as usize);
        }
        if x == y as int {
            assert(order_upto(nodes, k + 1)[order_upto(nodes, k).len() as int] == y);
        }
    }
    lemma_len_subset(unvisited(nodes, k + 1), unvisited(nodes, k).remove(y as int));
}

/// Once a level is empty, every later level is empty, and the order and
/// the levels stay as they are.
proof fn lemma_after_empty<N>(nodes: Seq<Node<N>>, k: nat, m: nat)
    requires
        frontier(nodes, k).len() == 0,
        k <= m,
    ensures
        frontier(nodes, m).len() == 0,
        order_upto(nodes, m) == order_upto(nodes, k),
        levels_upto(nodes, m) == levels_upto(nodes, k),
    decreases m - k,
{
    if k < m {
        lemma_after_empty(nodes, k, (m - 1) as nat);
        let f = frontier(nodes, (m - 1) as nat);
        assert(f =~= Seq::<usize>::empty());
        assert(flat_children(nodes, f) =~= Seq::<usize>::empty());
        assert(order_upto(nodes, m) =~= order_upto(nodes, (m - 1) as nat));
        assert(with_children(nodes, f) =~= Seq::<usize>::empty()) by {
            f.lemma_filter_len(|p: usize| children_of(nodes, p as int).len() > 0);
        }
    }
}

/// The children of `f`'s nodes before position `i`, and those of them that
/// have children, grow by the node at `i`.
proof fn lemma_level_step<N>(nodes: Seq<Node<N>>, f: Seq<usize>, i: int)
    requires
        0 <= i < f.len(),
    ensures
        flat_children(nodes, f.take(i + 1)) == flat_children(nodes, f.take(i)) + children_of(nodes, f[i] as int),
        with_children(nodes, f.take(i + 1)) == if children_of(nodes, f[i] as int).len() > 0 {
            with_children(nodes, f.take(i)).push(f[i])
        } else {
            with_children(nodes, f.take(i))
        },
{
    assert(f.take(i + 1).drop_last() =~= f.take(i));
    assert(f.take(i + 1) =~= f.take(i).push(f[i]));
    f.take(i).lemma_filter_push(f[i], |p: usize| children_of(nodes, p as int).len() > 0);
}

impl<N, E> Flow<N, E> {
    /// The nodes reached from the roots, level after level (each node after
    /// its parent), and, for each level that holds parents, those parents:
    /// the order in which positions are resolved top-down and parents are
    /// grown bottom-up.
    pub fn hierarchy_levels(&self) -> (r: (Vec<usize>, Vec<Vec<usize>>))
        ensures
            r.0@ == top_down_order(self.node_seq()),
            r.1@.map_values(|v: Vec<usize>| v@) == expansion_levels(self.node_seq()),
    {
        let ghost ns = self.nodes@;
        let (children, roots) = self.hierarchy_maps();
        let n = self.nodes.len();
        let mut order: Vec<usize> = Vec::new();
        let mut levels: Vec<Vec<usize>> = Vec::new();
        let mut to_process = roots;
        let ghost mut k: nat = 0;
        proof {
            lemma_unvisited_finite(ns, 0);
            assert(unvisited(ns, 0) =~= set_int_range(0, n as int));
            lemma_int_range(0, n as int);
        }
        while to_process.len() > 0
            invariant
                ns == self.node_seq(),
                n == ns.len(),
                children@.len() == n,
                forall|p: int| 0 <= p < n ==> (#[trigger] children@[p])@ == children_of(ns, p),
                to_process@ == frontier(ns, k),
                order@ == order_upto(ns, k),
                levels@.map_values(|v: Vec<usize>| v@) == levels_upto(ns, k),
                unvisited(ns, k).finite(),
                unvisited(ns, k).len() + k <= n,
            decreases unvisited(ns, k).len(),
        {
            proof {
                lemma_frontier_depth(ns, k);
            }
            let ghost f = to_process@;
            let mut next: Vec<usize> = Vec::new();
            let mut parents: Vec<usize> = Vec::new();
            let mut i: usize = 0;
            while i < to_process.len()
                invariant
                    f == to_process@,
                    f == frontier(ns, k),
                    n == ns.len(),
                    children@.len() == n,
                    forall|p: int| 0 <= p < n ==> (#[trigger] children@[p])@ == children_of(ns, p),
                    forall|j: int| 0 <= j < f.len() ==> (#[trigger] f[j]) < n,
                    i <= f.len(),
                    next@ == flat_children(ns, f.take(i as int)),
                    parents@ == with_children(ns, f.take(i as int)),
                decreases f.len() - i,
            {
                let p = to_process[i];
                proof {
                    lemma_level_step(ns, f, i as int);
                }
                let kids = &children[p];
                if kids.len() > 0 {
                    parents.push(p);
                }
                let ghost before = next@;
                let mut j: usize = 0;
                while j < kids.len()
                    invariant
                        j <= kids@.len(),
                        next@ == before + kids@.take(j as int),
                    decreases kids@.len() - j,
                {
                    next.push(kids[j]);
                    j = j + 1;
                    proof {
                        assert(kids@.take(j as int) =~= kids@.take(j - 1).push(kids@[j - 1]));
                        assert(next@ =~= before + kids@.take(j as int));
                    }
                }
                proof {
                    assert(kids@.take(kids@.len() as int) =~= kids@);
                }
                i = i + 1;
            }
            proof {
                assert(f.take(f.len() as int) =~= f);
                lemma_unvisited_shrinks(ns, k);
                lemma_unvisited_finite(ns, k + 1);
            }
            let ghost old_levels = levels@;
            let mut m: usize = 0;
            let ghost before = order@;
            while m < to_process.len()
                invariant
                    f == to_process@,
                    m <= f.len(),
                    order@ == before + f.take(m as int),
                decreases f.len() - m,
            {
                order.push(to_process[m]);
                m = m + 1;
                proof {
                    assert(f.take(m as int) =~= f.take(m - 1).push(f[m - 1]));
                    assert(order@ =~= before + f.take(m as int));
                }
            }
            if parents.len() > 0 {
                levels.push(parents);
                proof {
                    assert(levels@.map_values(|v: Vec<usize>| v@) =~= old_levels.map_values(|v: Vec<usize>| v@).push(with_children(ns, f)));
                }
            }
            to_process = next;
            proof {
                k = k + 1;
            }
        }
        proof {
            lemma_after_empty(ns, k, n as nat);
        }
        (order, levels)
    }
}

/// Within the first `k` levels, a node's parent comes before it.
proof fn lemma_parent_first_upto<N>(nodes: Seq<Node<N>>, k: nat, i: int)
    requires
        0 <= i < order_upto(nodes, k).len(),
        parent_index(nodes, order_upto(nodes, k)[i] as int) is Some,
    ensures
        exists|j: int| 0 <= j < i
            && order_upto(nodes, k)[j] as int == parent_index(nodes, order_upto(nodes, k)[i] as int)->0,
    decreases k,
{
    let prev = order_upto(nodes, (k - 1) as nat);
    let f = frontier(nodes, (k - 1) as nat);
    let x = order_upto(nodes, k)[i];
    if i < prev.len() {
        assert(prev[i] == x);
        lemma_parent_first_upto(nodes, (k - 1) as nat, i);
        let j = choose|j: int| 0 <= j < i && prev[j] as int == parent_index(nodes, x as int)->0;
        assert(order_upto(nodes, k)[j] == prev[j]);
    } else {
        assert(f[i - prev.len()] == x);
        if k == 1 {
            lemma_roots_members(nodes);
        } else {
            let g = frontier(nodes, (k - 2) as nat);
            let before = order_upto(nodes, (k - 2) as nat);
            lemma_flat_children_members(nodes, g);
            let jj = choose|jj: int| 0 <= jj < g.len() && parent_index(nodes, x as int) == Some(g[jj] as int);
            assert(prev == before + g);
            let j = before.len() + jj;
            assert(prev[j] == g[jj]);
            assert(order_upto(nodes, k)[j] == prev[j]);
        }
    }
}

/// Resolving in the top-down order handles every node after its parent:
/// where a node of the order has a parent, the parent comes earlier in it.
pub proof fn lemma_parent_resolved_first<N>(nodes: Seq<Node<N>>, i: int)
    requires
        0 <= i < top_down_order(nodes).len(),
        parent_index(nodes, top_down_order(nodes)[i] as int) is Some,
    ensures
        exists|j: int| 0 <= j < i
            && top_down_order(nodes)[j] as int == parent_index(nodes, top_down_order(nodes)[i] as int)->0,
{
    lemma_parent_first_upto(nodes, nodes.len(), i);
}

/// The children of a node of `f` are among the children of `f`.
proof fn lemma_flat_children_contains<N>(nodes: Seq<Node<N>>, f: Seq<usize>, j: int, x: usize)
    requires
        0 <= j < f.len(),
        children_of(nodes, f[j] as int).contains(x),
    ensures
        flat_children(nodes, f).contains(x),
    decreases f.len(),
{
    let init = f.drop_last();
    let a = flat_children(nodes, init);
    let b = children_of(nodes, f.last() as int);
    if j < f.len() - 1 {
        assert(init[j] == f[j]);
        lemma_flat_children_contains(nodes, init, j, x);
        let t = choose|t: int| 0 <= t < a.len() && a[t] == x;
        assert((a + b)[t] == x);
    } else {
        let t = choose|t: int| 0 <= t < b.len() && b[t] == x;
        assert((a + b)[a.len() + t] == x);
    }
}

/// A node `k` steps below a root is on level `k`, and there is a node on
/// every level above it.
proof fn lemma_depth_reached<N>(nodes: Seq<Node<N>>, x: int, k: nat)
    requires
        nodes.len() <= usize::MAX,
        0 <= x < nodes.len(),
        depth_is(nodes, x, k),
    ensures
        frontier(nodes, k).contains(x as usize),
        forall|j: nat| j <= k ==> (#[trigger] frontier(nodes, j)).len() > 0,
    decreases k,
{
    let idx = Seq::new(nodes.len(), |i: int| i as usize);
    assert(idx[x] == x as usize);
    if k == 0 {
        idx.lemma_filter_contains(|i: usize| parent_index(nodes, i as int) is None, x);
        assert forall|j: nat| j <= k implies (#[trigger] frontier(nodes, j)).len() > 0 by {
            assert(frontier(nodes, 0).contains(x as usize));
        }
    } else {
        let p = parent_index(nodes, x)->0;
        lemma_parent_in_range(nodes, x);
        lemma_depth_reached(nodes, p, (k - 1) as nat);
        let f = frontier(nodes, (k - 1) as nat);
        let j = choose|j: int| 0 <= j < f.len() && f[j] == p as usize;
        idx.lemma_filter_contains(|i: usize| parent_index(nodes, i as int) == Some(f[j] as int), x);
        lemma_flat_children_contains(nodes, f, j, x as usize);
        assert forall|m: nat| m <= k implies (#[trigger] frontier(nodes, m)).len() > 0 by {
            if m == k {
                assert(frontier(nodes, k).contains(x as usize));
            }
        }
    }
}

/// The first `k` levels hold the nodes of every level `j` below `k`.
proof fn lemma_order_holds_level<N>(nodes: Seq<Node<N>>, j: nat, k: nat, x: usize)
    requires
        j < k,
        frontier(nodes, j).contains(x),
    ensures
        order_upto(nodes, k).contains(x),
    decreases k,
{
    let prev = order_upto(nodes, (k - 1) as nat);
    let f = frontier(nodes, (k - 1) as nat);
    if j < k - 1 {
        lemma_order_holds_level(nodes, j, (k - 1) as nat, x);
        let t = choose|t: int| 0 <= t < prev.len() && prev[t] == x;
        assert((prev + f)[t] == x);
    } else {
        let t = choose|t: int| 0 <= t < f.len() && f[t] == x;
        assert((prev + f)[prev.len() + t] == x);
    }
}

/// With every level up to `k` holding a node, fewer than `k + 1` nodes are
/// left unvisited after it, so `k` is below the number of nodes.
proof fn lemma_levels_bounded<N>(nodes: Seq<Node<N>>, k: nat)
    requires
        forall|j: nat| j <= k ==> (#[trigger] frontier(nodes, j)).len() > 0,
    ensures
        unvisited(nodes, k + 1).len() + k + 1 <= nodes.len(),
    decreases k,
{
    lemma_unvisited_finite(nodes, k + 1);
    lemma_unvisited_shrinks(nodes, k);
    if k == 0 {
        lemma_int_range(0, nodes.len() as int);
        assert(unvisited(nodes, 0) =~= set_int_range(0, nodes.len() as int));
    } else {
        lemma_levels_bounded(nodes, (k - 1) as nat);
    }
}

/// Every node with a root above it, or that is a root, is resolved: it
/// occurs in the top-down order.
pub proof fn lemma_rooted_nodes_resolved<N>(nodes: Seq<Node<N>>, x: int, k: nat)
    requires
        nodes.len() <= usize::MAX,
        0 <= x < nodes.len(),
        depth_is(nodes, x, k),
    ensures
        top_down_order(nodes).contains(x as usize),
{
    lemma_depth_reached(nodes, x, k);
    lemma_levels_bounded(nodes, k);
    lemma_order_holds_level(nodes, k, nodes.len(), x as usize);
}

/// Filtering keeps a sequence free of repeats.
proof fn lemma_filter_no_dup<A>(s: Seq<A>, pred: spec_fn(A) -> bool)
    requires
        s.no_duplicates(),
    ensures
        s.filter(pred).no_duplicates(),
    decreases s.len(),
{
    if s.len() > 0 {
        let init = s.drop_last();
        let x = s.last();
        assert(init.push(x) =~= s);
        assert(init.no_duplicates());
        lemma_filter_no_dup(init, pred);
        init.lemma_filter_push(x, pred);
        if pred(x) {
            if init.filter(pred).contains(x) {
                init.lemma_filter_contains_rev(pred, x);
                let t = choose|t: int| 0 <= t < init.len() && init[t] == x;
                assert(s[t] == s[s.len() - 1]);
            }
        }
    }
}

/// The indices below `n` do not repeat.
proof fn lemma_indices_no_dup(n: nat)
    requires
        n <= usize::MAX,
    ensures
        Seq::new(n, |i: int| i as usize).no_duplicates(),
{
}

/// The children of the nodes of `f`, where `f` repeats no node, repeat no node.
proof fn lemma_flat_children_no_dup<N>(nodes: Seq<Node<N>>, f: Seq<usize>)
    requires
        nodes.len() <= usize::MAX,
        f.no_duplicates(),
    ensures
        flat_children(nodes, f).no_duplicates(),
    decreases f.len(),
{
    if f.len() > 0 {
        let init = f.drop_last();
        let a = flat_children(nodes, init);
        let b = children_of(nodes, f.last() as int);
        lemma_flat_children_no_dup(nodes, init);
        lemma_indices_no_dup(nodes.len());
        lemma_filter_no_dup(Seq::new(nodes.len(), |i: int| i as usize), |i: usize| parent_index(nodes, i as int) == Some(f.last() as int));
        lemma_flat_children_members(nodes, init);
        lemma_children_members(nodes, f.last() as int);
        assert forall|i: int, j: int| 0 <= i < a.len() && 0 <= j < b.len() implies a[i] != b[j] by {
            let jj = choose|jj: int| 0 <= jj < init.len() && parent_index(nodes, a[i] as int) == Some(init[jj] as int);
            assert(f[jj] == init[jj]);
            if a[i] == b[j] {
                assert(init[jj] as int == f.last() as int);
                assert(f[jj] == f[f.len() - 1]);
            }
        }
        lemma_no_dup_in_concat(a, b);
    }
}

/// No level repeats a node.
proof fn lemma_frontier_no_dup<N>(nodes: Seq<Node<N>>, k: nat)
    requires
        nodes.len() <= usize::MAX,
    ensures
        frontier(nodes, k).no_duplicates(),
    decreases k,
{
    if k == 0 {
        lemma_indices_no_dup(nodes.len());
        lemma_filter_no_dup(Seq::new(nodes.len(), |i: int| i as usize), |i: usize| parent_index(nodes, i as int) is None);
    } else {
        lemma_frontier_no_dup(nodes, (k - 1) as nat);
        lemma_flat_children_no_dup(nodes, frontier(nodes, (k - 1) as nat));
    }
}

/// The first `k` levels repeat no node.
proof fn lemma_order_no_dup<N>(nodes: Seq<Node<N>>, k: nat)
    requires
        nodes.len() <= usize::MAX,
    ensures
        order_upto(nodes, k).no_duplicates(),
    decreases k,
{
    if k > 0 {
        let prev = order_upto(nodes, (k - 1) as nat);
        let f = frontier(nodes, (k - 1) as nat);
        lemma_order_no_dup(nodes, (k - 1) as nat);
        lemma_frontier_no_dup(nodes, (k - 1) as nat);
        lemma_frontier_depth(nodes, (k - 1) as nat);
        assert forall|i: int, j: int| 0 <= i < prev.len() && 0 <= j < f.len() implies prev[i] != f[j] by {
            if prev[i] == f[j] {
                assert(prev.contains(prev[i]));
                lemma_order_depth(nodes, (k - 1) as nat, prev[i]);
                let d = choose|d: nat| d < k - 1 && depth_is(nodes, prev[i] as int, d);
                lemma_depth_unique(nodes, prev[i] as int, d, (k - 1) as nat);
            }
        }
        lemma_no_dup_in_concat(prev, f);
    }
}

/// The top-down order resolves no node twice.
pub proof fn lemma_resolved_once<N>(nodes: Seq<Node<N>>)
    requires
        nodes.len() <= usize::MAX,
    ensures
        top_down_order(nodes).no_duplicates(),
{
    lemma_order_no_dup(nodes, nodes.len());
}

/// Node `x` is a root or has a root above it.
pub open spec fn rooted<N>(nodes: Seq<Node<N>>, x: int) -> bool {
    exists|k: nat| #[trigger] depth_is(nodes, x, k)
}

/// Every node is a root or has a root above it.
pub open spec fn all_rooted<N>(nodes: Seq<Node<N>>) -> bool {
    forall|x: int| 0 <= x < nodes.len() ==> #[trigger] rooted(nodes, x)
}

/// Where only one node's parent changed, every other node keeps its parent index.
proof fn lemma_reparent_parent_index<N>(old_nodes: Seq<Node<N>>, new_nodes: Seq<Node<N>>, id: Seq<char>, parent: Option<Seq<char>>, x: int)
    requires
        reparented(old_nodes, new_nodes, id, parent),
        0 <= x < old_nodes.len(),
    ensures
        old_nodes[x].id@ != id ==> parent_index(new_nodes, x) == parent_index(old_nodes, x),
        old_nodes[x].id@ == id ==> match parent {
            None => parent_index(new_nodes, x) is None,
            Some(p) => parent_index(new_nodes, x) == first_in(id_pred(old_nodes, p), old_nodes.len() as int),
        },
{
    assert forall|s: Seq<char>| #[trigger] first_in(id_pred(new_nodes, s), old_nodes.len() as int)
        == first_in(id_pred(old_nodes, s), old_nodes.len() as int) by {
        assert forall|j: int| 0 <= j < old_nodes.len() implies #[trigger] id_pred(new_nodes, s)(j) == id_pred(old_nodes, s)(j) by {
            assert(old_nodes[j] == old_nodes[j]);
        }
        lemma_first_in_agree(id_pred(new_nodes, s), id_pred(old_nodes, s), old_nodes.len() as int);
    }
    if old_nodes[x].id@ == id {
        match new_nodes[x].parent_id {
            Some(q) => {
                assert(opt_chars(new_nodes[x].parent_id) == Some(q@));
            },
            None => {},
        }
    }
}

/// A node whose chain upward does not meet `id` keeps its depth when
/// only `id`'s parent changes.
proof fn lemma_depth_kept<N>(old_nodes: Seq<Node<N>>, new_nodes: Seq<Node<N>>, id: Seq<char>, parent: Option<Seq<char>>, y: int, k: nat)
    requires
        node_ids_unique(old_nodes),
        reparented(old_nodes, new_nodes, id, parent),
        0 <= y < old_nodes.len(),
        depth_is(old_nodes, y, k),
        !walk_meets(old_nodes, old_nodes[y].id@, id),
    ensures
        depth_is(new_nodes, y, k),
    decreases k,
{
    if old_nodes[y].id@ == id {
        assert(ancestor_walk(old_nodes, old_nodes[y].id@, id, 0) == Some(true));
    }
    lemma_reparent_parent_index(old_nodes, new_nodes, id, parent, y);
    if let Some(q) = parent_index(old_nodes, y) {
        lemma_parent_in_range(old_nodes, y);
        let pid = old_nodes[y].parent_id->0;
        lemma_first_in(id_pred(old_nodes, pid@), old_nodes.len() as int);
        assert(old_nodes[q].id@ == pid@);
        if walk_meets(old_nodes, old_nodes[q].id@, id) {
            let f = choose|f: nat| #[trigger] ancestor_walk(old_nodes, old_nodes[q].id@, id, f) == Some(true);
            lemma_found_first(old_nodes, old_nodes[y].id@, y);
            assert(ancestor_walk(old_nodes, old_nodes[y].id@, id, f + 1) == Some(true));
        }
        lemma_depth_kept(old_nodes, new_nodes, id, parent, q, (k - 1) as nat);
    }
}

/// After a change of `id`'s parent to one whose chain does not meet `id`,
/// a node that had a depth has one again.
proof fn lemma_depth_found<N>(old_nodes: Seq<Node<N>>, new_nodes: Seq<Node<N>>, id: Seq<char>, parent: Option<Seq<char>>, x: int, k: nat)
    requires
        node_ids_unique(old_nodes),
        all_rooted(old_nodes),
        reparented(old_nodes, new_nodes, id, parent),
        parent matches Some(p) ==> has_node(old_nodes, p) && !walk_meets(old_nodes, p, id),
        0 <= x < old_nodes.len(),
        depth_is(old_nodes, x, k),
    ensures
        exists|j: nat| #[trigger] depth_is(new_nodes, x, j),
    decreases k,
{
    lemma_reparent_parent_index(old_nodes, new_nodes, id, parent, x);
    if old_nodes[x].id@ == id {
        match parent {
            None => {
                assert(depth_is(new_nodes, x, 0));
            },
            Some(p) => {
                let pr = id_pred(old_nodes, p);
                lemma_first_in(pr, old_nodes.len() as int);
                let w = choose|w: int| 0 <= w < old_nodes.len() && #[trigger] old_nodes[w].id@ == p;
                assert(pr(w));
                let q = first_in(pr, old_nodes.len() as int)->0;
                assert(old_nodes[q].id@ == p);
                assert(rooted(old_nodes, q));
                let d = choose|d: nat| #[trigger] depth_is(old_nodes, q, d);
                lemma_depth_kept(old_nodes, new_nodes, id, parent, q, d);
                assert(depth_is(new_nodes, x, d + 1));
            },
        }
    } else {
        match parent_index(old_nodes, x) {
            None => {
                assert(depth_is(new_nodes, x, 0));
            },
            Some(q) => {
                lemma_parent_in_range(old_nodes, x);
                lemma_depth_found(old_nodes, new_nodes, id, parent, q, (k - 1) as nat);
                let j = choose|j: nat| #[trigger] depth_is(new_nodes, q, j);
                assert(depth_is(new_nodes, x, j + 1));
            },
        }
    }
}

/// A re-parenting that `set_node_parent` accepts keeps every node below a
/// root: where every node had a root above it (or was one), every node
/// still has, so the top-down resolution still reaches them all.
pub proof fn lemma_reparent_keeps_rooted<N>(old_nodes: Seq<Node<N>>, new_nodes: Seq<Node<N>>, id: Seq<char>, parent: Option<Seq<char>>)
    requires
        node_ids_unique(old_nodes),
        all_rooted(old_nodes),
        has_node(old_nodes, id),
        parent matches Some(p) ==> has_node(old_nodes, p) && !walk_meets(old_nodes, p, id),
        reparented(old_nodes, new_nodes, id, parent),
    ensures
        all_rooted(new_nodes),
{
    assert forall|x: int| 0 <= x < new_nodes.len() implies #[trigger] rooted(new_nodes, x) by {
        assert(rooted(old_nodes, x));
        let k = choose|k: nat| #[trigger] depth_is(old_nodes, x, k);
        lemma_depth_found(old_nodes, new_nodes, id, parent, x, k);
    }
}

/// Only nodes with a root above them, or roots, are resolved: a node on a
/// cycle of parents never occurs in the top-down order.
pub proof fn lemma_resolved_nodes_rooted<N>(nodes: Seq<Node<N>>, i: int)
    requires
        0 <= i < top_down_order(nodes).len(),
    ensures
        top_down_order(nodes)[i] < nodes.len(),
        rooted(nodes, top_down_order(nodes)[i] as int),
{
    let z = top_down_order(nodes)[i];
    assert(top_down_order(nodes).contains(z));
    lemma_order_depth(nodes, nodes.len(), z);
    let j = choose|j: nat| j < nodes.len() && depth_is(nodes, z as int, j);
    lemma_order_bounded(nodes, nodes.len(), i);
}

/// Every node of the first `k` levels is a node of the graph.
proof fn lemma_order_bounded<N>(nodes: Seq<Node<N>>, k: nat, i: int)
    requires
        0 <= i < order_upto(nodes, k).len(),
    ensures
        order_upto(nodes, k)[i] < nodes.len(),
    decreases k,
{
    let prev = order_upto(nodes, (k - 1) as nat);
    if i < prev.len() {
        lemma_order_bounded(nodes, (k - 1) as nat, i);
    } else {
        lemma_frontier_depth(nodes, (k - 1) as nat);
        assert(order_upto(nodes, k)[i] == frontier(nodes, (k - 1) as nat)[i - prev.len()]);
    }
}

} // verus!
