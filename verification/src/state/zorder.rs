//! Z-ordering of nodes: effective z-indices and the back-to-front order.
//!
//! A node's effective z is its own z-index, raised by 1000 when it is
//! selected and selected nodes are elevated, and at least one more than its
//! parent's effective z, so that children stay above their parents. Nodes
//! are drawn by ascending effective z, ties broken by insertion order.

use vstd::prelude::*;
use crate::state::hierarchy::id_pred;
use crate::state::lookup::find_node;
use crate::state::model::{first_in, lemma_first_in};
use crate::state::Flow;
use crate::types::Node;

verus! {

/// How far a selected node is raised when selected nodes are elevated.
pub const DEFAULT_SELECTED_NODE_Z: i32 = 1000;

/// A node's own effective z before its parent is considered.
pub open spec fn base_z<N>(n: Node<N>, elevate: bool) -> int {
    n.z_index + if elevate && n.selected { DEFAULT_SELECTED_NODE_Z as int } else { 0 }
}

/// The index of node `i`'s parent: the first node carrying its parent ID.
pub open spec fn parent_index<N>(nodes: Seq<Node<N>>, i: int) -> Option<int> {
    match nodes[i].parent_id {
        None => None,
        Some(p) => first_in(id_pred(nodes, p@), nodes.len() as int),
    }
}

/// Node `i`'s effective z, looking at most `fuel` parents up: the largest of
/// its base z and, for each ancestor `k` steps up, that ancestor's base z
/// plus `k`.
pub open spec fn eff_z<N>(nodes: Seq<Node<N>>, elevate: bool, i: int, fuel: nat) -> int
    decreases fuel,
{
    let b = base_z(nodes[i], elevate);
    match parent_index(nodes, i) {
        None => b,
        Some(p) => if fuel == 0 {
            b
        } else {
            let up = eff_z(nodes, elevate, p, (fuel - 1) as nat) + 1;
            if b >= up { b } else { up }
        },
    }
}

/// Node `i`'s effective z.
pub open spec fn effective_z<N>(nodes: Seq<Node<N>>, elevate: bool, i: int) -> int {
    eff_z(nodes, elevate, i, nodes.len())
}

/// The parent chain from node `i` reaches a node without a parent within
/// `fuel` steps.
pub open spec fn roots_within<N>(nodes: Seq<Node<N>>, i: int, fuel: nat) -> bool
    decreases fuel,
{
    match parent_index(nodes, i) {
        None => true,
        Some(p) => fuel > 0 && roots_within(nodes, p, (fuel - 1) as nat),
    }
}

/// No node is its own ancestor: every parent chain reaches a root in fewer
/// steps than there are nodes.
pub open spec fn parents_acyclic<N>(nodes: Seq<Node<N>>) -> bool {
    forall|i: int| 0 <= i < nodes.len() ==> #[trigger] roots_within(nodes, i, (nodes.len() - 1) as nat)
}

/// Node `a` comes before node `b` back to front: lower effective z first,
/// ties by insertion order.
pub open spec fn z_before<N>(nodes: Seq<Node<N>>, elevate: bool, a: int, b: int) -> bool {
    let za = effective_z(nodes, elevate, a);
    let zb = effective_z(nodes, elevate, b);
    za < zb || (za == zb && a < b)
}

/// `order` lists each node index exactly once, back to front.
pub open spec fn is_z_order<N>(nodes: Seq<Node<N>>, elevate: bool, order: Seq<usize>) -> bool {
    &&& order.len() == nodes.len()
    &&& forall|k: int| 0 <= k < order.len() ==> #[trigger] order[k] < nodes.len()
    &&& forall|j: usize| j < nodes.len() ==> #[trigger] order.contains(j)
    &&& forall|a: int, b: int| 0 <= a < b < order.len()
        ==> z_before(nodes, elevate, #[trigger] order[a] as int, #[trigger] order[b] as int)
}

/// A parent index is a valid node index.
pub proof fn lemma_parent_index<N>(nodes: Seq<Node<N>>, i: int)
    requires
        0 <= i < nodes.len(),
    ensures
        parent_index(nodes, i) matches Some(p) ==> 0 <= p < nodes.len(),
{
    if let Some(pid) = nodes[i].parent_id {
        lemma_first_in(id_pred(nodes, pid@), nodes.len() as int);
    }
}

/// Effective z stays within the bounds its inputs allow.
pub proof fn lemma_eff_z_bounds<N>(nodes: Seq<Node<N>>, elevate: bool, i: int, fuel: nat)
    requires
        0 <= i < nodes.len(),
    ensures
        i32::MIN <= eff_z(nodes, elevate, i, fuel) <= i32::MAX + DEFAULT_SELECTED_NODE_Z + fuel,
    decreases fuel,
{
    lemma_parent_index(nodes, i);
    if let Some(p) = parent_index(nodes, i) {
        if fuel > 0 {
            lemma_eff_z_bounds(nodes, elevate, p, (fuel - 1) as nat);
        }
    }
}

/// Once the parent chain has reached a root, more fuel changes nothing.
pub proof fn lemma_eff_z_fuel<N>(nodes: Seq<Node<N>>, elevate: bool, i: int, f: nat, g: nat)
    requires
        0 <= i < nodes.len(),
        roots_within(nodes, i, f),
        f <= g,
    ensures
        eff_z(nodes, elevate, i, f) == eff_z(nodes, elevate, i, g),
    decreases f,
{
    lemma_parent_index(nodes, i);
    if let Some(p) = parent_index(nodes, i) {
        lemma_eff_z_fuel(nodes, elevate, p, (f - 1) as nat, (g - 1) as nat);
    }
}

/// A chain that reaches a root within `f` steps does so within any larger bound.
pub proof fn lemma_roots_within_more<N>(nodes: Seq<Node<N>>, i: int, f: nat, g: nat)
    requires
        0 <= i < nodes.len(),
        roots_within(nodes, i, f),
        f <= g,
    ensures
        roots_within(nodes, i, g),
    decreases f,
{
    lemma_parent_index(nodes, i);
    if let Some(p) = parent_index(nodes, i) {
        lemma_roots_within_more(nodes, p, (f - 1) as nat, (g - 1) as nat);
    }
}

/// Children stay above their parents: when no node is its own ancestor, a
/// node's effective z is the larger of its base z and one more than its
/// parent's, so it is above its parent and at least its base.
pub proof fn lemma_child_above_parent<N>(nodes: Seq<Node<N>>, elevate: bool, i: int)
    requires
        0 <= i < nodes.len(),
        parents_acyclic(nodes),
    ensures
        effective_z(nodes, elevate, i) >= base_z(nodes[i], elevate),
        parent_index(nodes, i) matches Some(p) ==> {
            let up = effective_z(nodes, elevate, p) + 1;
            let b = base_z(nodes[i], elevate);
            effective_z(nodes, elevate, i) == if b >= up { b } else { up }
        },
{
    lemma_parent_index(nodes, i);
    let n = nodes.len();
    if let Some(p) = parent_index(nodes, i) {
        assert(roots_within(nodes, i, (n - 1) as nat));
        assert(roots_within(nodes, p, (n - 2) as nat));
        lemma_eff_z_fuel(nodes, elevate, p, (n - 2) as nat, (n - 1) as nat);
        lemma_eff_z_fuel(nodes, elevate, p, (n - 2) as nat, n);
    }
}

/// Computes `eff_z` by walking up the parent chain.
fn eff_z_exec<N>(nodes: &Vec<Node<N>>, elevate: bool, i: usize, fuel: usize) -> (r: i128)
    requires
        i < nodes@.len(),
    ensures
        r == eff_z(nodes@, elevate, i as int, fuel as nat),
    decreases fuel,
{
    let n = &nodes[i];
    let lift: i128 = if elevate && n.selected { DEFAULT_SELECTED_NODE_Z as i128 } else { 0 };
    let b: i128 = n.z_index as i128 + lift;
    match &n.parent_id {
        None => b,
        Some(pid) => {
            let found = find_node(nodes, pid.as_str());
            proof {
                lemma_first_in(id_pred(nodes@, pid@), nodes@.len() as int);
            }
            match found {
                None => {
                    assert(parent_index(nodes@, i as int) is None) by {
                        let p = id_pred(nodes@, pid@);
                        if let Some(j) = first_in(p, nodes@.len() as int) {
                            assert(p(j));
                        }
                    }
                    b
                },
                Some(p) => {
                    assert(parent_index(nodes@, i as int) == Some(p as int)) by {
                        let q = id_pred(nodes@, pid@);
                        assert(q(p as int));
                        if let Some(j) = first_in(q, nodes@.len() as int) {
                            if j < p {
                                assert(nodes@[j].id@ != pid@);
                            }
                            if p < j {
                                assert(!q(p as int));
                            }
                        }
                    }
                    if fuel == 0 {
                        b
                    } else {
                        let pz = eff_z_exec(nodes, elevate, p, fuel - 1);
                        proof {
                            lemma_eff_z_bounds(nodes@, elevate, p as int, (fuel - 1) as nat);
                        }
                        let up = pz + 1;
                        if b >= up { b } else { up }
                    }
                },
            }
        },
    }
}

impl<N, E> Flow<N, E> {
    /// The effective z of every node, in insertion order.
    pub fn effective_z_values(&self) -> (r: Vec<i128>)
        ensures
            r@.len() == self.node_seq().len(),
            forall|i: int| 0 <= i < r@.len() ==> #[trigger] r@[i] == effective_z(self.node_seq(), self.elevates(), i),
    {
        let n = self.nodes.len();
        let mut out: Vec<i128> = Vec::new();
        let mut i: usize = 0;
        while i < n
            invariant
                n == self.nodes@.len(),
                i <= n,
                out@.len() == i,
                forall|k: int| 0 <= k < i ==> #[trigger] out@[k] == effective_z(self.nodes@, self.elevate_nodes_on_select, k),
            decreases n - i,
        {
            let z = eff_z_exec(&self.nodes, self.elevate_nodes_on_select, i, n);
            out.push(z);
            i = i + 1;
        }
        out
    }

    /// The node indices back to front: ascending effective z, ties in
    /// insertion order.
    pub fn z_ordered_indices(&self) -> (r: Vec<usize>)
        ensures
            is_z_order(self.node_seq(), self.elevates(), r@),
    {
        let zs = self.effective_z_values();
        let ghost nodes = self.node_seq();
        let ghost el = self.elevates();
        let n = zs.len();
        let mut order: Vec<usize> = Vec::new();
        let mut i: usize = 0;
        while i < n
            invariant
                n == zs@.len(),
                n == nodes.len(),
                i <= n,
                forall|k: int| 0 <= k < n ==> #[trigger] zs@[k] == effective_z(nodes, el, k),
                order@.len() == i,
                forall|k: int| 0 <= k < order@.len() ==> #[trigger] order@[k] < i,
                forall|j: usize| j < i ==> #[trigger] order@.contains(j),
                forall|a: int, b: int| 0 <= a < b < order@.len()
                    ==> z_before(nodes, el, #[trigger] order@[a] as int, #[trigger] order@[b] as int),
            decreases n - i,
        {
            let zi = zs[i];
            let mut p: usize = 0;
            while p < order.len() && zs[order[p]] <= zi
                invariant
                    n == zs@.len(),
                    i < n,
                    zi == zs@[i as int],
                    p <= order@.len(),
                    forall|k: int| 0 <= k < order@.len() ==> #[trigger] order@[k] < i,
                    forall|k: int| 0 <= k < p ==> zs@[#[trigger] order@[k] as int] <= zi,
                decreases order@.len() - p,
            {
                p = p + 1;
            }
            let ghost before = order@;
            order.insert(p, i);
            proof {
                assert(order@ == before.insert(p as int, i));
                assert forall|k: int| 0 <= k < order@.len() implies #[trigger] order@[k] < i + 1 by {
                    if k < p {
                        assert(order@[k] == before[k]);
                    } else if k > p {
                        assert(order@[k] == before[k - 1]);
                    }
                }
                assert forall|j: usize| j < i + 1 implies #[trigger] order@.contains(j) by {
                    if j == i {
                        assert(order@[p as int] == i);
                    } else {
                        assert(before.contains(j));
                        let k = choose|k: int| 0 <= k < before.len() && before[k] == j;
                        if k < p {
                            assert(order@[k] == before[k]);
                        } else {
                            assert(order@[k + 1] == before[k]);
                        }
                    }
                }
                assert forall|a: int, b: int| 0 <= a < b < order@.len()
                    implies z_before(nodes, el, #[trigger] order@[a] as int, #[trigger] order@[b] as int) by {
                    let oa = order@[a];
                    let ob = order@[b];
                    if b < p {
                        assert(oa == before[a] && ob == before[b]);
                    } else if a > p {
                        assert(oa == before[a - 1] && ob == before[b - 1]);
                    } else if a < p && b > p {
                        assert(oa == before[a] && ob == before[b - 1]);
                    } else if a == p {
                        assert(oa == i);
                        assert(ob == before[b - 1]);
                        if b - 1 >= p {
                            if p < before.len() {
                                assert(zs@[before[p as int] as int] > zi);
                            }
                        }
                        assert(ob < i);
                        if p < before.len() {
                            assert(zs@[before[p as int] as int] > zi);
                            if b - 1 > p {
                                assert(z_before(nodes, el, before[p as int] as int, before[b - 1] as int));
                            }
                        }
                    } else {
                        assert(b == p);
                        assert(ob == i);
                        assert(oa == before[a]);
                        assert(zs@[before[a] as int] <= zi);
                    }
                }
            }
            i = i + 1;
        }
        order
    }
}

} // verus!
