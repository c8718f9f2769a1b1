//! The parent relation between nodes: re-parenting and the ancestor walk
//! that refuses cycles.

use vstd::prelude::*;
use crate::error::Error;
use crate::state::lookup::find_node;
use crate::state::model::{first_in, has_node, lemma_first_in, lemma_same_ids_wf};
use crate::state::walk::lemma_walk_bound;
use crate::state::Flow;
use crate::strs::{copy_string, opt_chars, opt_str_chars, owned, owned_opt, string_is};
use crate::types::Node;

verus! {

/// The predicate "node `i` has ID `id`".
pub open spec fn id_pred<N>(nodes: Seq<Node<N>>, id: Seq<char>) -> spec_fn(int) -> bool {
    |i: int| nodes[i].id@ == id
}

/// The first node with ID `id`, if any.
pub open spec fn node_by_id<N>(nodes: Seq<Node<N>>, id: Seq<char>) -> Option<Node<N>> {
    match first_in(id_pred(nodes, id), nodes.len() as int) {
        Some(i) => Some(nodes[i]),
        None => None,
    }
}

/// Walks up the parent chain from `cur` for at most `fuel` steps: `Some(true)`
/// once it reaches `target`, `Some(false)` at a node without a (known) parent,
/// `None` if the fuel runs out first.
pub open spec fn ancestor_walk<N>(nodes: Seq<Node<N>>, cur: Seq<char>, target: Seq<char>, fuel: nat) -> Option<bool>
    decreases fuel,
{
    if cur == target {
        Some(true)
    } else {
        match node_by_id(nodes, cur) {
            None => Some(false),
            Some(n) => match n.parent_id {
                None => Some(false),
                Some(p) => if fuel == 0 { None } else { ancestor_walk(nodes, p@, target, (fuel - 1) as nat) },
            },
        }
    }
}

/// The walk up from `from` stops: it meets `target` or a node without a parent.
pub open spec fn walk_ends<N>(nodes: Seq<Node<N>>, from: Seq<char>, target: Seq<char>) -> bool {
    exists|f: nat| #[trigger] ancestor_walk(nodes, from, target, f) is Some
}

/// The walk up from `from` meets `target`: `target` is `from` or one of its ancestors.
pub open spec fn walk_meets<N>(nodes: Seq<Node<N>>, from: Seq<char>, target: Seq<char>) -> bool {
    exists|f: nat| #[trigger] ancestor_walk(nodes, from, target, f) == Some(true)
}

/// More fuel does not change a walk that already ended.
pub proof fn lemma_walk_more_fuel<N>(nodes: Seq<Node<N>>, cur: Seq<char>, target: Seq<char>, f: nat, g: nat)
    requires
        f <= g,
        ancestor_walk(nodes, cur, target, f) is Some,
    ensures
        ancestor_walk(nodes, cur, target, g) == ancestor_walk(nodes, cur, target, f),
    decreases f,
{
    if cur != target {
        match node_by_id(nodes, cur) {
            None => {},
            Some(n) => match n.parent_id {
                None => {},
                Some(p) => {
                    lemma_walk_more_fuel(nodes, p@, target, (f - 1) as nat, (g - 1) as nat);
                },
            },
        }
    }
}

/// A walk that ends with some fuel meets the target exactly when it does so with that fuel.
pub proof fn lemma_walk_meets_at<N>(nodes: Seq<Node<N>>, from: Seq<char>, target: Seq<char>, f: nat)
    requires
        ancestor_walk(nodes, from, target, f) is Some,
    ensures
        walk_meets(nodes, from, target) <==> ancestor_walk(nodes, from, target, f) == Some(true),
{
    if walk_meets(nodes, from, target) {
        let g = choose|g: nat| #[trigger] ancestor_walk(nodes, from, target, g) == Some(true);
        if g <= f {
            lemma_walk_more_fuel(nodes, from, target, g, f);
        } else {
            lemma_walk_more_fuel(nodes, from, target, f, g);
        }
    }
}

/// The index `find_node` returns is the first one with that ID.
pub proof fn lemma_found_first<N>(nodes: Seq<Node<N>>, id: Seq<char>, i: int)
    requires
        0 <= i < nodes.len(),
        nodes[i].id@ == id,
        forall|k: int| 0 <= k < i ==> (#[trigger] nodes[k]).id@ != id,
    ensures
        node_by_id(nodes, id) == Some(nodes[i]),
{
    let p = id_pred(nodes, id);
    lemma_first_in(p, nodes.len() as int);
    match first_in(p, nodes.len() as int) {
        Some(j) => {
            if j < i {
                assert(p(j));
            } else if j > i {
                assert(!p(i));
            }
        },
        None => {
            assert(!p(i));
        },
    }
}

/// No node has ID `id`.
pub proof fn lemma_not_found<N>(nodes: Seq<Node<N>>, id: Seq<char>)
    requires
        forall|k: int| 0 <= k < nodes.len() ==> (#[trigger] nodes[k]).id@ != id,
    ensures
        node_by_id(nodes, id) is None,
{
    let p = id_pred(nodes, id);
    lemma_first_in(p, nodes.len() as int);
    if let Some(j) = first_in(p, nodes.len() as int) {
        assert(p(j));
    }
}

/// The node with ID `id` has exactly its parent changed, to a parent with ID `parent`.
pub open spec fn reparented<N>(old_nodes: Seq<Node<N>>, new_nodes: Seq<Node<N>>, id: Seq<char>, parent: Option<Seq<char>>) -> bool {
    &&& new_nodes.len() == old_nodes.len()
    &&& forall|i: int| 0 <= i < old_nodes.len() ==> if (#[trigger] old_nodes[i]).id@ == id {
        new_nodes[i] == (Node { parent_id: new_nodes[i].parent_id, ..old_nodes[i] })
            && opt_chars(new_nodes[i].parent_id) == parent
    } else {
        new_nodes[i] == old_nodes[i]
    }
}

impl<N, E> Flow<N, E> {
    /// What re-parenting node `id` under `parent` (or detaching it, for
    /// `None`) does: `NodeNotFound` for a missing node or parent,
    /// `CyclicParent` when the walk up from the parent meets the node, each
    /// leaving the flow as it was, and otherwise exactly that parent change.
    pub open spec fn reparent_outcome(old: Self, new: Self, id: Seq<char>, parent: Option<Seq<char>>, r: Result<(), Error>) -> bool {
        &&& new.wf()
        &&& new.edge_seq() == old.edge_seq()
        &&& new.same_settings(&old)
        &&& !has_node(old.node_seq(), id) ==> (r matches Err(Error::NodeNotFound { node_id }) && node_id@ == id)
            && new == old
        &&& has_node(old.node_seq(), id) ==> match parent {
            Some(p) => if !has_node(old.node_seq(), p) {
                (r matches Err(Error::NodeNotFound { node_id }) && node_id@ == p) && new == old
            } else if walk_meets(old.node_seq(), p, id) {
                (r matches Err(Error::CyclicParent { node_id, parent_id }) && node_id@ == id && parent_id@ == p)
                    && new == old
            } else {
                r is Ok && reparented(old.node_seq(), new.node_seq(), id, Some(p))
            },
            None => r is Ok && reparented(old.node_seq(), new.node_seq(), id, None),
        }
    }

    /// Re-parents a node; `None` detaches it to the top level.
    ///
    /// Fails with `NodeNotFound` if the node or the proposed parent is
    /// missing, and with `CyclicParent` if the parent is the node itself or
    /// one of its descendants (the walk up from the parent meets the node).
    /// Where both nodes exist, the walk up from the parent must end; where
    /// the parents above it form a loop that avoids the node, it would not.
    pub fn set_node_parent(&mut self, id: &str, parent: Option<&str>) -> (r: Result<(), Error>)
        requires
            old(self).wf(),
            parent matches Some(p) ==> (has_node(old(self).node_seq(), id@) && has_node(old(self).node_seq(), p@)
                ==> walk_ends(old(self).node_seq(), p@, id@)),
        ensures
            Self::reparent_outcome(*old(self), *final(self), id@, opt_str_chars(parent), r),
    {
        let idx = match find_node(&self.nodes, id) {
            Some(i) => i,
            None => {
                return Err(Error::NodeNotFound { node_id: owned(id) });
            },
        };
        if let Some(parent_id) = parent {
            match find_node(&self.nodes, parent_id) {
                Some(k) => {
                    assert(self.nodes@[k as int].id@ == parent_id@);
                },
                None => {
                    return Err(Error::NodeNotFound { node_id: owned(parent_id) });
                },
            }
            let ghost fuel0 = choose|f: nat| #[trigger] ancestor_walk(self.nodes@, parent_id@, id@, f) is Some;
            let ghost mut fuel = fuel0;
            let mut cur: String = owned(parent_id);
            loop
                invariant
                    self.wf(),
                    *self == *old(self),
                    idx < self.nodes@.len(),
                    self.nodes@[idx as int].id@ == id@,
                    forall|k: int| 0 <= k < idx ==> (#[trigger] self.nodes@[k]).id@ != id@,
                    has_node(self.nodes@, parent_id@),
                    parent == Some(parent_id),
                    ancestor_walk(self.nodes@, parent_id@, id@, fuel0) is Some,
                    ancestor_walk(self.nodes@, cur@, id@, fuel) == ancestor_walk(self.nodes@, parent_id@, id@, fuel0),
                ensures
                    self.wf(),
                    *self == *old(self),
                    idx < self.nodes@.len(),
                    self.nodes@[idx as int].id@ == id@,
                    forall|k: int| 0 <= k < idx ==> (#[trigger] self.nodes@[k]).id@ != id@,
                    ancestor_walk(self.nodes@, parent_id@, id@, fuel0) == Some(false),
                decreases fuel,
            {
                if string_is(&cur, id) {
                    proof {
                        assert(ancestor_walk(self.nodes@, cur@, id@, fuel) == Some(true));
                        lemma_walk_meets_at(self.nodes@, parent_id@, id@, fuel0);
                        assert(walk_meets(self.nodes@, parent_id@, id@));
                        assert(walk_meets(old(self).node_seq(), parent_id@, id@));
                    }
                    return Err(Error::CyclicParent { node_id: owned(id), parent_id: owned(parent_id) });
                }
                match find_node(&self.nodes, cur.as_str()) {
                    None => {
                        proof {
                            lemma_not_found(self.nodes@, cur@);
                        }
                        break;
                    },
                    Some(k) => {
                        proof {
                            lemma_found_first(self.nodes@, cur@, k as int);
                        }
                        match &self.nodes[k].parent_id {
                            None => {
                                break;
                            },
                            Some(p) => {
                                cur = copy_string(p);
                                proof {
                                    fuel = (fuel - 1) as nat;
                                }
                            },
                        }
                    },
                }
            }
            proof {
                lemma_walk_meets_at(self.nodes@, parent_id@, id@, fuel0);
            }
        }
        let ghost before = self.nodes@;
        let new_parent = owned_opt(parent);
        self.nodes[idx].parent_id = new_parent;
        proof {
            assert forall|i: int| 0 <= i < before.len() && i != idx implies (#[trigger] before[i]).id@ != id@ by {
                assert(before[i].id@ != before[idx as int].id@);
            }
            lemma_same_ids_wf(before, self.edges@, self.nodes@, self.edges@);
        }
        Ok(())
    }
    /// Whether the walk up from `from` ends within `fuel` steps, meeting
    /// `target` or a node without a parent in the graph.
    fn walk_ends_within(&self, from: &str, target: &str, fuel: usize) -> (r: bool)
        ensures
            r == (ancestor_walk(self.node_seq(), from@, target@, fuel as nat) is Some),
    {
        let mut cur: String = owned(from);
        let mut left: usize = fuel;
        loop
            invariant
                ancestor_walk(self.nodes@, cur@, target@, left as nat) == ancestor_walk(self.nodes@, from@, target@, fuel as nat),
            decreases left,
        {
            if string_is(&cur, target) {
                return true;
            }
            match find_node(&self.nodes, cur.as_str()) {
                None => {
                    proof {
                        lemma_not_found(self.nodes@, cur@);
                    }
                    return true;
                },
                Some(k) => {
                    proof {
                        lemma_found_first(self.nodes@, cur@, k as int);
                    }
                    match &self.nodes[k].parent_id {
                        None => {
                            return true;
                        },
                        Some(p) => {
                            if left == 0 {
                                return false;
                            }
                            cur = copy_string(p);
                            left = left - 1;
                        },
                    }
                },
            }
        }
    }

    /// Re-parents a node as [`Flow::set_node_parent`] does, except where both
    /// nodes exist and the walk up from the proposed parent never ends: then
    /// it returns `None` and changes nothing. The walk is tried for as many steps as there are
    /// nodes: one that has not ended by then never ends.
    pub fn try_set_node_parent(&mut self, id: &str, parent: Option<&str>) -> (r: Option<Result<(), Error>>)
        requires
            old(self).wf(),
        ensures
            r is None <==> (parent matches Some(p) && has_node(old(self).node_seq(), id@)
                && has_node(old(self).node_seq(), p@) && !walk_ends(old(self).node_seq(), p@, id@)),
            r is None ==> *final(self) == *old(self),
            r matches Some(res) ==> Self::reparent_outcome(*old(self), *final(self), id@, opt_str_chars(parent), res),
    {
        if let Some(p) = parent {
            if find_node(&self.nodes, id).is_none() || find_node(&self.nodes, p).is_none() {
                return Some(self.set_node_parent(id, parent));
            }
            if !self.walk_ends_within(p, id, self.nodes.len()) {
                proof {
                    lemma_walk_bound(self.node_seq(), p@, id@);
                }
                return None;
            }
            assert(ancestor_walk(self.node_seq(), p@, id@, self.node_seq().len()) is Some);
        }
        Some(self.set_node_parent(id, parent))
    }
}

} // verus!
