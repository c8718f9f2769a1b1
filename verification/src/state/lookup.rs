//! Finding nodes and edges by identifier.

use vstd::prelude::*;
use crate::strs::string_is;
use crate::types::{Edge, Node};

verus! {

/// The index of the first node with identifier `id`, if any.
pub fn find_node<N>(nodes: &Vec<Node<N>>, id: &str) -> (r: Option<usize>)
    ensures
        r matches Some(i) ==> i < nodes@.len() && nodes@[i as int].id@ == id@
            && forall|k: int| 0 <= k < i ==> (#[trigger] nodes@[k]).id@ != id@,
        r is None ==> forall|k: int| 0 <= k < nodes@.len() ==> (#[trigger] nodes@[k]).id@ != id@,
{
    let mut i: usize = 0;
    while i < nodes.len()
        invariant
            i <= nodes@.len(),
            forall|k: int| 0 <= k < i ==> (#[trigger] nodes@[k]).id@ != id@,
        decreases nodes@.len() - i,
    {
        if string_is(&nodes[i].id, id) {
            return Some(i);
        }
        i = i + 1;
    }
    None
}

/// The index of the first edge with identifier `id`, if any.
pub fn find_edge<E>(edges: &Vec<Edge<E>>, id: &str) -> (r: Option<usize>)
    ensures
        r matches Some(i) ==> i < edges@.len() && edges@[i as int].id@ == id@
            && forall|k: int| 0 <= k < i ==> (#[trigger] edges@[k]).id@ != id@,
        r is None ==> forall|k: int| 0 <= k < edges@.len() ==> (#[trigger] edges@[k]).id@ != id@,
{
    let mut i: usize = 0;
    while i < edges.len()
        invariant
            i <= edges@.len(),
            forall|k: int| 0 <= k < i ==> (#[trigger] edges@[k]).id@ != id@,
        decreases edges@.len() - i,
    {
        if string_is(&edges[i].id, id) {
            return Some(i);
        }
        i = i + 1;
    }
    None
}

} // verus!
