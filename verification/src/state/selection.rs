//! Selection: querying, changing and snapshotting which nodes and edges are selected.

use vstd::prelude::*;
use crate::state::lookup::{find_edge, find_node};
use crate::state::model::{first_in, lemma_first_in, lemma_same_ids_wf};
use crate::state::Flow;
use crate::strs::copy_string;
use crate::types::{Edge, Node};

verus! {

/// A direction for spatial navigation between nodes.
#[derive(Debug, Clone, Copy, PartialEq, Eq, Structural)]
pub enum Direction {
    /// Toward the top.
    Up,
    /// Toward the bottom.
    Down,
    /// Toward the left.
    Left,
    /// Toward the right.
    Right,
}

/// `s` with node `i` selected exactly when `sel(i)`.
pub open spec fn nodes_selected_where<N>(s: Seq<Node<N>>, sel: spec_fn(int) -> bool) -> Seq<Node<N>> {
    Seq::new(s.len(), |i: int| Node { selected: sel(i), ..s[i] })
}

/// `s` with edge `i` selected exactly when `sel(i)`.
pub open spec fn edges_selected_where<E>(s: Seq<Edge<E>>, sel: spec_fn(int) -> bool) -> Seq<Edge<E>> {
    Seq::new(s.len(), |i: int| Edge { selected: sel(i), ..s[i] })
}

/// `s` with no node selected.
pub open spec fn nodes_deselected<N>(s: Seq<Node<N>>) -> Seq<Node<N>> {
    nodes_selected_where(s, |i: int| false)
}

/// `s` with no edge selected.
pub open spec fn edges_deselected<E>(s: Seq<Edge<E>>) -> Seq<Edge<E>> {
    edges_selected_where(s, |i: int| false)
}

/// The predicate "node `i` is selected".
pub open spec fn node_selected_pred<N>(s: Seq<Node<N>>) -> spec_fn(int) -> bool {
    |i: int| s[i].selected
}

/// The predicate "edge `i` is selected".
pub open spec fn edge_selected_pred<E>(s: Seq<Edge<E>>) -> spec_fn(int) -> bool {
    |i: int| s[i].selected
}

/// The index of the first selected node, if any.
pub open spec fn first_selected_node<N>(s: Seq<Node<N>>) -> Option<int> {
    first_in(node_selected_pred(s), s.len() as int)
}

/// The index of the first selected edge, if any.
pub open spec fn first_selected_edge<E>(s: Seq<Edge<E>>) -> Option<int> {
    first_in(edge_selected_pred(s), s.len() as int)
}

/// The index that "select next" moves to among `len` items, from the first
/// selected index: one further, wrapping around, or the first if none.
pub open spec fn next_index(first: Option<int>, len: int) -> int {
    match first {
        Some(i) => (i + 1) % len,
        None => 0,
    }
}

/// The index that "select previous" moves to among `len` items, from the
/// first selected index: one back, wrapping around, or the last if none.
pub open spec fn prev_index(first: Option<int>, len: int) -> int {
    match first {
        Some(i) => (i + len - 1) % len,
        None => len - 1,
    }
}

/// Stepping back from position `i` among `n` wraps from the first to the last.
pub proof fn lemma_prev_index(i: int, n: int)
    requires
        0 <= i < n,
    ensures
        prev_index(Some(i), n) == if i == 0 { n - 1 } else { i - 1 },
{
    vstd::arithmetic::div_mod::lemma_mod_add_multiples_vanish(i - 1, n);
    if i == 0 {
        vstd::arithmetic::div_mod::lemma_small_mod((n - 1) as nat, n as nat);
    } else {
        vstd::arithmetic::div_mod::lemma_small_mod((i - 1) as nat, n as nat);
    }
}

/// The IDs of the selected nodes, in order.
pub open spec fn selected_node_ids<N>(s: Seq<Node<N>>) -> Seq<Seq<char>>
    decreases s.len(),
{
    if s.len() == 0 {
        Seq::empty()
    } else {
        let rest = selected_node_ids(s.drop_last());
        if s.last().selected { rest.push(s.last().id@) } else { rest }
    }
}

/// The IDs of the selected edges, in order.
pub open spec fn selected_edge_ids<E>(s: Seq<Edge<E>>) -> Seq<Seq<char>>
    decreases s.len(),
{
    if s.len() == 0 {
        Seq::empty()
    } else {
        let rest = selected_edge_ids(s.drop_last());
        if s.last().selected { rest.push(s.last().id@) } else { rest }
    }
}

/// The selected nodes, in order.
pub open spec fn selected_nodes_of<N>(s: Seq<Node<N>>) -> Seq<Node<N>>
    decreases s.len(),
{
    if s.len() == 0 {
        Seq::empty()
    } else {
        let rest = selected_nodes_of(s.drop_last());
        if s.last().selected { rest.push(s.last()) } else { rest }
    }
}

/// The selected edges, in order.
pub open spec fn selected_edges_of<E>(s: Seq<Edge<E>>) -> Seq<Edge<E>>
    decreases s.len(),
{
    if s.len() == 0 {
        Seq::empty()
    } else {
        let rest = selected_edges_of(s.drop_last());
        if s.last().selected { rest.push(s.last()) } else { rest }
    }
}

/// The characters of each string.
pub open spec fn strings_view(s: Seq<String>) -> Seq<Seq<char>> {
    s.map_values(|x: String| x@)
}

/// Collects the IDs of the selected nodes, in order.
pub fn collect_selected_node_ids<N>(nodes: &Vec<Node<N>>) -> (r: Vec<String>)
    ensures
        strings_view(r@) == selected_node_ids(nodes@),
{
    let mut out: Vec<String> = Vec::new();
    let mut i: usize = 0;
    while i < nodes.len()
        invariant
            i <= nodes@.len(),
            strings_view(out@) == selected_node_ids(nodes@.take(i as int)),
        decreases nodes@.len() - i,
    {
        proof {
            assert(nodes@.take(i + 1).drop_last() =~= nodes@.take(i as int));
        }
        if nodes[i].selected {
            let id = copy_string(&nodes[i].id);
            let ghost prev = out@;
            out.push(id);
            proof {
                assert(strings_view(out@) =~= strings_view(prev).push(id@));
            }
        }
        i = i + 1;
    }
    proof {
        assert(nodes@.take(nodes@.len() as int) =~= nodes@);
    }
    out
}

/// Collects the IDs of the selected edges, in order.
pub fn collect_selected_edge_ids<E>(edges: &Vec<Edge<E>>) -> (r: Vec<String>)
    ensures
        strings_view(r@) == selected_edge_ids(edges@),
{
    let mut out: Vec<String> = Vec::new();
    let mut i: usize = 0;
    while i < edges.len()
        invariant
            i <= edges@.len(),
            strings_view(out@) == selected_edge_ids(edges@.take(i as int)),
        decreases edges@.len() - i,
    {
        proof {
            assert(edges@.take(i + 1).drop_last() =~= edges@.take(i as int));
        }
        if edges[i].selected {
            let id = copy_string(&edges[i].id);
            let ghost prev = out@;
            out.push(id);
            proof {
                assert(strings_view(out@) =~= strings_view(prev).push(id@));
            }
        }
        i = i + 1;
    }
    proof {
        assert(edges@.take(edges@.len() as int) =~= edges@);
    }
    out
}

/// The index of the first selected node, if any.
pub fn find_selected_node<N>(nodes: &Vec<Node<N>>) -> (r: Option<usize>)
    ensures
        r matches Some(i) ==> first_selected_node(nodes@) == Some(i as int) && i < nodes@.len(),
        r is None ==> first_selected_node(nodes@) is None,
{
    let ghost p = node_selected_pred(nodes@);
    let mut i: usize = 0;
    while i < nodes.len()
        invariant
            i <= nodes@.len(),
            p == node_selected_pred(nodes@),
            first_in(p, i as int) is None,
        decreases nodes@.len() - i,
    {
        if nodes[i].selected {
            proof {
                assert(first_in(p, i + 1) == Some(i as int));
                crate::state::model::lemma_first_in_stable(p, i + 1, nodes@.len() as int);
            }
            return Some(i);
        }
        i = i + 1;
    }
    None
}

/// The index of the first selected edge, if any.
pub fn find_selected_edge<E>(edges: &Vec<Edge<E>>) -> (r: Option<usize>)
    ensures
        r matches Some(i) ==> first_selected_edge(edges@) == Some(i as int) && i < edges@.len(),
        r is None ==> first_selected_edge(edges@) is None,
{
    let ghost p = edge_selected_pred(edges@);
    let mut i: usize = 0;
    while i < edges.len()
        invariant
            i <= edges@.len(),
            p == edge_selected_pred(edges@),
            first_in(p, i as int) is None,
        decreases edges@.len() - i,
    {
        if edges[i].selected {
            proof {
                assert(first_in(p, i + 1) == Some(i as int));
                crate::state::model::lemma_first_in_stable(p, i + 1, edges@.len() as int);
            }
            return Some(i);
        }
        i = i + 1;
    }
    None
}

/// Sets the selection flag of every node to `sel`.
fn set_all_nodes_selected<N>(nodes: &mut Vec<Node<N>>, sel: bool)
    ensures
        final(nodes)@ == nodes_selected_where(old(nodes)@, |i: int| sel),
{
    let ghost s = nodes@;
    let mut i: usize = 0;
    while i < nodes.len()
        invariant
            i <= nodes@.len(),
            nodes@.len() == s.len(),
            forall|k: int| 0 <= k < i ==> nodes@[k] == (Node { selected: sel, ..s[k] }),
            forall|k: int| i <= k < s.len() ==> nodes@[k] == s[k],
        decreases nodes@.len() - i,
    {
        nodes[i].selected = sel;
        i = i + 1;
    }
    assert(nodes@ =~= nodes_selected_where(s, |i: int| sel));
}

/// Sets the selection flag of every edge to `sel`.
fn set_all_edges_selected<E>(edges: &mut Vec<Edge<E>>, sel: bool)
    ensures
        final(edges)@ == edges_selected_where(old(edges)@, |i: int| sel),
{
    let ghost s = edges@;
    let mut i: usize = 0;
    while i < edges.len()
        invariant
            i <= edges@.len(),
            edges@.len() == s.len(),
            forall|k: int| 0 <= k < i ==> edges@[k] == (Edge { selected: sel, ..s[k] }),
            forall|k: int| i <= k < s.len() ==> edges@[k] == s[k],
        decreases edges@.len() - i,
    {
        edges[i].selected = sel;
        i = i + 1;
    }
    assert(edges@ =~= edges_selected_where(s, |i: int| sel));
}

impl<N, E> Flow<N, E> {
    /// Deselects all nodes and edges.
    pub fn clear_selection(&mut self)
        requires
            old(self).wf(),
        ensures
            final(self).wf(),
            final(self).same_settings(old(self)),
            final(self).node_seq() == nodes_deselected(old(self).node_seq()),
            final(self).edge_seq() == edges_deselected(old(self).edge_seq()),
    {
        let ghost (ns, es) = (self.nodes@, self.edges@);
        set_all_nodes_selected(&mut self.nodes, false);
        set_all_edges_selected(&mut self.edges, false);
        proof {
            lemma_same_ids_wf(ns, es, self.nodes@, self.edges@);
        }
    }

    /// Returns true if any node is selected.
    pub fn has_selected_nodes(&self) -> (r: bool)
        ensures
            r == exists|i: int| 0 <= i < self.node_seq().len() && (#[trigger] self.node_seq()[i]).selected,
    {
        let f = find_selected_node(&self.nodes);
        proof {
            lemma_first_in(node_selected_pred(self.nodes@), self.nodes@.len() as int);
            if let Some(i) = f {
                assert(self.nodes@[i as int].selected);
            } else {
                assert forall|i: int| 0 <= i < self.nodes@.len() implies !(#[trigger] self.nodes@[i]).selected by {
                    assert(!node_selected_pred(self.nodes@)(i));
                }
            }
        }
        f.is_some()
    }

    /// Returns true if any edge is selected.
    pub fn has_selected_edges(&self) -> (r: bool)
        ensures
            r == exists|i: int| 0 <= i < self.edge_seq().len() && (#[trigger] self.edge_seq()[i]).selected,
    {
        let f = find_selected_edge(&self.edges);
        proof {
            lemma_first_in(edge_selected_pred(self.edges@), self.edges@.len() as int);
            if let Some(i) = f {
                assert(self.edges@[i as int].selected);
            } else {
                assert forall|i: int| 0 <= i < self.edges@.len() implies !(#[trigger] self.edges@[i]).selected by {
                    assert(!edge_selected_pred(self.edges@)(i));
                }
            }
        }
        f.is_some()
    }

    /// Selects every node, leaving edge selection as it is.
    pub fn select_all_nodes(&mut self)
        requires
            old(self).wf(),
        ensures
            final(self).wf(),
            final(self).same_settings(old(self)),
            final(self).node_seq() == nodes_selected_where(old(self).node_seq(), |i: int| true),
            final(self).edge_seq() == old(self).edge_seq(),
    {
        let ghost ns = self.nodes@;
        set_all_nodes_selected(&mut self.nodes, true);
        proof {
            lemma_same_ids_wf(ns, self.edges@, self.nodes@, self.edges@);
        }
    }

    /// Selects every edge, leaving node selection as it is.
    pub fn select_all_edges(&mut self)
        requires
            old(self).wf(),
        ensures
            final(self).wf(),
            final(self).same_settings(old(self)),
            final(self).node_seq() == old(self).node_seq(),
            final(self).edge_seq() == edges_selected_where(old(self).edge_seq(), |i: int| true),
    {
        let ghost es = self.edges@;
        set_all_edges_selected(&mut self.edges, true);
        proof {
            lemma_same_ids_wf(self.nodes@, es, self.nodes@, self.edges@);
        }
    }

    /// Selects a node by ID, clearing all other selection.
    ///
    /// If the node doesn't exist, selection is cleared.
    pub fn select_node(&mut self, id: &str)
        requires
            old(self).wf(),
        ensures
            final(self).wf(),
            final(self).same_settings(old(self)),
            final(self).node_seq() == nodes_selected_where(old(self).node_seq(),
                |i: int| old(self).node_seq()[i].id@ == id@),
            final(self).edge_seq() == edges_deselected(old(self).edge_seq()),
    {
        let ghost ns = self.nodes@;
        self.clear_selection();
        match find_node(&self.nodes, id) {
            Some(i) => {
                let ghost before = self.nodes@;
                self.nodes[i].selected = true;
                proof {
                    assert forall|k: int| 0 <= k < ns.len() implies self.nodes@[k]
                        == nodes_selected_where(ns, |i: int| ns[i].id@ == id@)[k] by {
                        if k != i {
                            assert(ns[k].id@ != ns[i as int].id@);
                        }
                    }
                    assert(self.nodes@ =~= nodes_selected_where(ns, |i: int| ns[i].id@ == id@));
                    lemma_same_ids_wf(before, self.edges@, self.nodes@, self.edges@);
                }
            },
            None => {
                assert(self.nodes@ =~= nodes_selected_where(ns, |i: int| ns[i].id@ == id@));
            },
        }
    }

    /// Selects an edge by ID, clearing all other selection.
    ///
    /// If the edge doesn't exist, selection is cleared.
    pub fn select_edge(&mut self, id: &str)
        requires
            old(self).wf(),
        ensures
            final(self).wf(),
            final(self).same_settings(old(self)),
            final(self).node_seq() == nodes_deselected(old(self).node_seq()),
            final(self).edge_seq() == edges_selected_where(old(self).edge_seq(),
                |i: int| old(self).edge_seq()[i].id@ == id@),
    {
        let ghost es = self.edges@;
        self.clear_selection();
        match find_edge(&self.edges, id) {
            Some(i) => {
                let ghost before = self.edges@;
                self.edges[i].selected = true;
                proof {
                    assert forall|k: int| 0 <= k < es.len() implies self.edges@[k]
                        == edges_selected_where(es, |i: int| es[i].id@ == id@)[k] by {
                        if k != i {
                            assert(es[k].id@ != es[i as int].id@);
                        }
                    }
                    assert(self.edges@ =~= edges_selected_where(es, |i: int| es[i].id@ == id@));
                    lemma_same_ids_wf(self.nodes@, before, self.nodes@, self.edges@);
                }
            },
            None => {
                assert(self.edges@ =~= edges_selected_where(es, |i: int| es[i].id@ == id@));
            },
        }
    }

    /// Selects the next node in insertion order (the first if none is
    /// selected), clearing all other selection. Does nothing without nodes.
    pub fn select_next_node(&mut self)
        requires
            old(self).wf(),
        ensures
            final(self).wf(),
            final(self).same_settings(old(self)),
            old(self).node_seq().len() == 0 ==> *final(self) == *old(self),
            old(self).node_seq().len() > 0 ==> {
                let k = next_index(first_selected_node(old(self).node_seq()), old(self).node_seq().len() as int);
                &&& final(self).node_seq() == nodes_selected_where(old(self).node_seq(), |i: int| i == k)
                &&& final(self).edge_seq() == edges_deselected(old(self).edge_seq())
            },
    {
        let n = self.nodes.len();
        if n == 0 {
            return;
        }
        let next = match find_selected_node(&self.nodes) {
            Some(i) => (i + 1) % n,
            None => 0,
        };
        self.select_only_node_at(next);
    }

    /// Selects the previous node in insertion order (the last if none is
    /// selected), clearing all other selection. Does nothing without nodes.
    pub fn select_prev_node(&mut self)
        requires
            old(self).wf(),
        ensures
            final(self).wf(),
            final(self).same_settings(old(self)),
            old(self).node_seq().len() == 0 ==> *final(self) == *old(self),
            old(self).node_seq().len() > 0 ==> {
                let k = prev_index(first_selected_node(old(self).node_seq()), old(self).node_seq().len() as int);
                &&& final(self).node_seq() == nodes_selected_where(old(self).node_seq(), |i: int| i == k)
                &&& final(self).edge_seq() == edges_deselected(old(self).edge_seq())
            },
    {
        let n = self.nodes.len();
        if n == 0 {
            return;
        }
        let prev = match find_selected_node(&self.nodes) {
            Some(i) => {
                proof {
                    lemma_prev_index(i as int, n as int);
                }
                if i == 0 { n - 1 } else { i - 1 }
            },
            None => n - 1,
        };
        self.select_only_node_at(prev);
    }

    /// Selects only the node at `k`, clearing all other selection.
    fn select_only_node_at(&mut self, k: usize)
        requires
            old(self).wf(),
            k < old(self).node_seq().len(),
        ensures
            final(self).wf(),
            final(self).same_settings(old(self)),
            final(self).node_seq() == nodes_selected_where(old(self).node_seq(), |i: int| i == k),
            final(self).edge_seq() == edges_deselected(old(self).edge_seq()),
    {
        let ghost ns = self.nodes@;
        self.clear_selection();
        let ghost before = self.nodes@;
        self.nodes[k].selected = true;
        proof {
            assert(self.nodes@ =~= nodes_selected_where(ns, |i: int| i == k));
            lemma_same_ids_wf(before, self.edges@, self.nodes@, self.edges@);
        }
    }

    /// Selects only the edge at `k`, clearing all other selection.
    fn select_only_edge_at(&mut self, k: usize)
        requires
            old(self).wf(),
            k < old(self).edge_seq().len(),
        ensures
            final(self).wf(),
            final(self).same_settings(old(self)),
            final(self).node_seq() == nodes_deselected(old(self).node_seq()),
            final(self).edge_seq() == edges_selected_where(old(self).edge_seq(), |i: int| i == k),
    {
        let ghost es = self.edges@;
        self.clear_selection();
        let ghost before = self.edges@;
        self.edges[k].selected = true;
        proof {
            assert(self.edges@ =~= edges_selected_where(es, |i: int| i == k));
            lemma_same_ids_wf(self.nodes@, before, self.nodes@, self.edges@);
        }
    }

    /// Selects the next edge in order (the first if none is selected),
    /// clearing all other selection. Does nothing without edges.
    pub fn select_next_edge(&mut self)
        requires
            old(self).wf(),
        ensures
            final(self).wf(),
            final(self).same_settings(old(self)),
            old(self).edge_seq().len() == 0 ==> *final(self) == *old(self),
            old(self).edge_seq().len() > 0 ==> {
                let k = next_index(first_selected_edge(old(self).edge_seq()), old(self).edge_seq().len() as int);
                &&& final(self).node_seq() == nodes_deselected(old(self).node_seq())
                &&& final(self).edge_seq() == edges_selected_where(old(self).edge_seq(), |i: int| i == k)
            },
    {
        let n = self.edges.len();
        if n == 0 {
            return;
        }
        let next = match find_selected_edge(&self.edges) {
            Some(i) => (i + 1) % n,
            None => 0,
        };
        self.select_only_edge_at(next);
    }

    /// Selects the previous edge in order (the last if none is selected),
    /// clearing all other selection. Does nothing without edges.
    pub fn select_prev_edge(&mut self)
        requires
            old(self).wf(),
        ensures
            final(self).wf(),
            final(self).same_settings(old(self)),
            old(self).edge_seq().len() == 0 ==> *final(self) == *old(self),
            old(self).edge_seq().len() > 0 ==> {
                let k = prev_index(first_selected_edge(old(self).edge_seq()), old(self).edge_seq().len() as int);
                &&& final(self).node_seq() == nodes_deselected(old(self).node_seq())
                &&& final(self).edge_seq() == edges_selected_where(old(self).edge_seq(), |i: int| i == k)
            },
    {
        let n = self.edges.len();
        if n == 0 {
            return;
        }
        let prev = match find_selected_edge(&self.edges) {
            Some(i) => {
                proof {
                    lemma_prev_index(i as int, n as int);
                }
                if i == 0 { n - 1 } else { i - 1 }
            },
            None => n - 1,
        };
        self.select_only_edge_at(prev);
    }

    /// Toggles a node's selection without clearing others.
    pub fn toggle_node_selection(&mut self, id: &str)
        requires
            old(self).wf(),
        ensures
            final(self).wf(),
            final(self).same_settings(old(self)),
            final(self).edge_seq() == old(self).edge_seq(),
            final(self).node_seq() == crate::state::update::nodes_with(old(self).node_seq(), id@,
                |n: Node<N>| Node { selected: !n.selected, ..n }),
    {
        match find_node(&self.nodes, id) {
            Some(i) => {
                let ghost f = |n: Node<N>| Node { selected: !n.selected, ..n };
                proof {
                    crate::state::update::lemma_update_node(self.nodes@, self.edges@, i as int, id@, f);
                }
                let ghost before = self.nodes@;
                let v = !self.nodes[i].selected;
                self.nodes[i].selected = v;
                assert(self.nodes@ == before.update(i as int, f(before[i as int])));
            },
            None => {
                proof {
                    crate::state::update::lemma_nodes_with_absent(self.nodes@, id@,
                        |n: Node<N>| Node { selected: !n.selected, ..n });
                }
            },
        }
    }

    /// Toggles an edge's selection without clearing others.
    pub fn toggle_edge_selection(&mut self, id: &str)
        requires
            old(self).wf(),
        ensures
            final(self).wf(),
            final(self).same_settings(old(self)),
            final(self).node_seq() == old(self).node_seq(),
            final(self).edge_seq() == crate::state::update::edges_with(old(self).edge_seq(), id@,
                |e: Edge<E>| Edge { selected: !e.selected, ..e }),
    {
        match find_edge(&self.edges, id) {
            Some(i) => {
                let ghost f = |e: Edge<E>| Edge { selected: !e.selected, ..e };
                proof {
                    crate::state::update::lemma_update_edge(self.nodes@, self.edges@, i as int, id@, f);
                }
                let ghost before = self.edges@;
                let v = !self.edges[i].selected;
                self.edges[i].selected = v;
                assert(self.edges@ == before.update(i as int, f(before[i as int])));
            },
            None => {
                proof {
                    crate::state::update::lemma_edges_with_absent(self.edges@, id@,
                        |e: Edge<E>| Edge { selected: !e.selected, ..e });
                }
            },
        }
    }

    /// The selected nodes, in insertion order.
    pub fn selected_nodes(&self) -> (r: Vec<&Node<N>>)
        ensures
            r@.map_values(|n: &Node<N>| *n) == selected_nodes_of(self.node_seq()),
    {
        let mut out: Vec<&Node<N>> = Vec::new();
        let mut i: usize = 0;
        while i < self.nodes.len()
            invariant
                i <= self.nodes@.len(),
                out@.map_values(|n: &Node<N>| *n) == selected_nodes_of(self.nodes@.take(i as int)),
            decreases self.nodes@.len() - i,
        {
            proof {
                assert(self.nodes@.take(i + 1).drop_last() =~= self.nodes@.take(i as int));
            }
            if self.nodes[i].selected {
                let ghost prev = out@;
                out.push(&self.nodes[i]);
                proof {
                    assert(out@.map_values(|n: &Node<N>| *n) =~= prev.map_values(|n: &Node<N>| *n).push(self.nodes@[i as int]));
                }
            }
            i = i + 1;
        }
        proof {
            assert(self.nodes@.take(self.nodes@.len() as int) =~= self.nodes@);
        }
        out
    }

    /// The selected edges, in insertion order.
    pub fn selected_edges(&self) -> (r: Vec<&Edge<E>>)
        ensures
            r@.map_values(|e: &Edge<E>| *e) == selected_edges_of(self.edge_seq()),
    {
        let mut out: Vec<&Edge<E>> = Vec::new();
        let mut i: usize = 0;
        while i < self.edges.len()
            invariant
                i <= self.edges@.len(),
                out@.map_values(|e: &Edge<E>| *e) == selected_edges_of(self.edges@.take(i as int)),
            decreases self.edges@.len() - i,
        {
            proof {
                assert(self.edges@.take(i + 1).drop_last() =~= self.edges@.take(i as int));
            }
            if self.edges[i].selected {
                let ghost prev = out@;
                out.push(&self.edges[i]);
                proof {
                    assert(out@.map_values(|e: &Edge<E>| *e) =~= prev.map_values(|e: &Edge<E>| *e).push(self.edges@[i as int]));
                }
            }
            i = i + 1;
        }
        proof {
            assert(self.edges@.take(self.edges@.len() as int) =~= self.edges@);
        }
        out
    }

    /// Returns the ID of the first selected node, if any.
    pub fn first_selected_node_id(&self) -> (r: Option<String>)
        ensures
            match first_selected_node(self.node_seq()) {
                Some(i) => r matches Some(s) && s@ == self.node_seq()[i].id@,
                None => r is None,
            },
    {
        match find_selected_node(&self.nodes) {
            Some(i) => Some(copy_string(&self.nodes[i].id)),
            None => None,
        }
    }

    /// Returns the ID of the first selected edge, if any.
    pub fn first_selected_edge_id(&self) -> (r: Option<String>)
        ensures
            match first_selected_edge(self.edge_seq()) {
                Some(i) => r matches Some(s) && s@ == self.edge_seq()[i].id@,
                None => r is None,
            },
    {
        match find_selected_edge(&self.edges) {
            Some(i) => Some(copy_string(&self.edges[i].id)),
            None => None,
        }
    }

    /// The snapshot records exactly the current selection, in order.
    pub open spec fn snapshot_matches_selection(&self) -> bool {
        &&& strings_view(self.snapshot_node_ids()) == selected_node_ids(self.node_seq())
        &&& strings_view(self.snapshot_edge_ids()) == selected_edge_ids(self.edge_seq())
    }

    /// Records the current selection, to compare against after a change.
    pub fn snapshot_selection(&mut self)
        ensures
            final(self).snapshot_matches_selection(),
            final(self).same_config(old(self)),
            final(self).node_seq() == old(self).node_seq(),
            final(self).edge_seq() == old(self).edge_seq(),
            final(self).preview() == old(self).preview(),
    {
        self.prev_selection_node_ids = collect_selected_node_ids(&self.nodes);
        self.prev_selection_edge_ids = collect_selected_edge_ids(&self.edges);
    }
}

} // verus!
