//! The parent tree as node indices: each node's parent, each node's
//! children, and the roots.

use vstd::prelude::*;
use crate::state::hierarchy::id_pred;
use crate::state::lookup::find_node;
use crate::state::model::{first_in, lemma_first_in};
use crate::state::zorder::parent_index;
use crate::state::Flow;
use crate::types::Node;

verus! {

/// The indices of the nodes whose parent is node `p`, ascending.
pub open spec fn children_of<N>(nodes: Seq<Node<N>>, p: int) -> Seq<usize> {
    Seq::new(nodes.len(), |i: int| i as usize).filter(|i: usize| parent_index(nodes, i as int) == Some(p))
}

/// The indices of the nodes without a parent in the graph, ascending.
pub open spec fn roots_of<N>(nodes: Seq<Node<N>>) -> Seq<usize> {
    Seq::new(nodes.len(), |i: int| i as usize).filter(|i: usize| parent_index(nodes, i as int) is None)
}

/// The index of node `i`'s parent, as [`parent_index`] says.
fn parent_at<N>(nodes: &Vec<Node<N>>, i: usize) -> (r: Option<usize>)
    requires
        i < nodes@.len(),
    ensures
        match r {
            Some(p) => parent_index(nodes@, i as int) == Some(p as int) && p < nodes@.len(),
            None => parent_index(nodes@, i as int) is None,
        },
{
    match &nodes[i].parent_id {
        None => None,
        Some(pid) => {
            let found = find_node(nodes, pid.as_str());
            let ghost q = id_pred(nodes@, pid@);
            proof {
                lemma_first_in(q, nodes@.len() as int);
                match found {
                    Some(p) => {
                        assert(q(p as int));
                        if let Some(j) = first_in(q, nodes@.len() as int) {
                            if j < p {
                                assert(nodes@[j].id@ != pid@);
                            }
                            if (p as int) < j {
                                assert(!q(p as int));
                            }
                        }
                    },
                    None => {
                        if let Some(j) = first_in(q, nodes@.len() as int) {
                            assert(q(j));
                        }
                    },
                }
            }
            found
        },
    }
}

impl<N, E> Flow<N, E> {
    /// Each node's parent index, in node order.
    pub fn parent_indices(&self) -> (r: Vec<Option<usize>>)
        ensures
            r@.len() == self.node_seq().len(),
            forall|i: int| 0 <= i < r@.len() ==> match #[trigger] r@[i] {
                Some(p) => parent_index(self.node_seq(), i) == Some(p as int),
                None => parent_index(self.node_seq(), i) is None,
            },
    {
        let mut out: Vec<Option<usize>> = Vec::new();
        let mut i: usize = 0;
        while i < self.nodes.len()
            invariant
                i <= self.nodes@.len(),
                out@.len() == i,
                forall|k: int| 0 <= k < i ==> match #[trigger] out@[k] {
                    Some(p) => parent_index(self.nodes@, k) == Some(p as int),
                    None => parent_index(self.nodes@, k) is None,
                },
            decreases self.nodes@.len() - i,
        {
            out.push(parent_at(&self.nodes, i));
            i = i + 1;
        }
        out
    }

    /// The children of every node, and the roots: node `p`'s entry lists
    /// the nodes whose parent it is; the roots are the nodes without a
    /// parent in the graph. Both keep node order.
    pub fn hierarchy_maps(&self) -> (r: (Vec<Vec<usize>>, Vec<usize>))
        ensures
            r.0@.len() == self.node_seq().len(),
            forall|p: int| 0 <= p < r.0@.len() ==> (#[trigger] r.0@[p])@ == children_of(self.node_seq(), p),
            r.1@ == roots_of(self.node_seq()),
    {
        let n = self.nodes.len();
        let parents = self.parent_indices();
        let ghost ns = self.nodes@;
        let ghost idx = Seq::new(n as nat, |i: int| i as usize);
        let mut children: Vec<Vec<usize>> = Vec::new();
        let mut p: usize = 0;
        while p < n
            invariant
                n == ns.len(),
                ns == self.nodes@,
                idx == Seq::new(n as nat, |i: int| i as usize),
                parents@.len() == n,
                forall|i: int| 0 <= i < n ==> match #[trigger] parents@[i] {
                    Some(q) => parent_index(ns, i) == Some(q as int),
                    None => parent_index(ns, i) is None,
                },
                p <= n,
                children@.len() == p,
                forall|k: int| 0 <= k < p ==> (#[trigger] children@[k])@ == children_of(ns, k),
            decreases n - p,
        {
            let ghost pred = |i: usize| parent_index(ns, i as int) == Some(p as int);
            let mut kids: Vec<usize> = Vec::new();
            let mut i: usize = 0;
            while i < n
                invariant
                    n == ns.len(),
                    idx == Seq::new(n as nat, |j: int| j as usize),
                    parents@.len() == n,
                    forall|j: int| 0 <= j < n ==> match #[trigger] parents@[j] {
                        Some(q) => parent_index(ns, j) == Some(q as int),
                        None => parent_index(ns, j) is None,
                    },
                    p < n,
                    pred == (|i: usize| parent_index(ns, i as int) == Some(p as int)),
                    i <= n,
                    kids@ == idx.take(i as int).filter(pred),
                decreases n - i,
            {
                proof {
                    assert(idx.take(i + 1) =~= idx.take(i as int).push(i));
                    idx.take(i as int).lemma_filter_push(i, pred);
                }
                match parents[i] {
                    Some(q) => {
                        if q == p {
                            kids.push(i);
                        }
                    },
                    None => {},
                }
                i = i + 1;
            }
            assert(idx.take(n as int) =~= idx);
            children.push(kids);
            p = p + 1;
        }
        let ghost rpred = |i: usize| parent_index(ns, i as int) is None;
        let mut roots: Vec<usize> = Vec::new();
        let mut i: usize = 0;
        while i < n
            invariant
                n == ns.len(),
                idx == Seq::new(n as nat, |j: int| j as usize),
                parents@.len() == n,
                forall|j: int| 0 <= j < n ==> match #[trigger] parents@[j] {
                    Some(q) => parent_index(ns, j) == Some(q as int),
                    None => parent_index(ns, j) is None,
                },
                rpred == (|i: usize| parent_index(ns, i as int) is None),
                i <= n,
                roots@ == idx.take(i as int).filter(rpred),
            decreases n - i,
        {
            proof {
                assert(idx.take(i + 1) =~= idx.take(i as int).push(i));
                idx.take(i as int).lemma_filter_push(i, rpred);
            }
            if parents[i].is_none() {
                roots.push(i);
            }
            i = i + 1;
        }
        assert(idx.take(n as int) =~= idx);
        (children, roots)
    }
}

} // verus!
