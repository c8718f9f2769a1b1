//! The graph as a layout engine sees it, and what a layout changes in it
//! besides coordinates.

use vstd::prelude::*;
use crate::error::Error;
use crate::layout::{source_side, IntoEdge, LayoutDirection};
use crate::state::handles::{get_handle, get_handle_index, handles_of_node, node_handles};
use crate::state::hierarchy::id_pred;
use crate::state::lookup::find_node;
use crate::state::model::{
    edge_dup_pred, edge_problem_pred, first_in, graph_problem, has_node, lemma_first_in,
    lemma_first_in_agree, member_of, node_dup_pred, node_problem_pred, reports, typed_count,
    GraphProblem,
};
use crate::state::selection::strings_view;
use crate::state::Flow;
use crate::strs::{copy_string, opt_chars, opt_str_chars, owned, string_is};
use crate::types::connection::edge_id_spec;
use crate::types::handle::opposite_side;
use crate::types::{Connection, ConnectionMode, Edge, HandlePosition, HandleType, Node, Reconnectable};

verus! {

/// The index of the first node with ID `id`.
pub open spec fn index_of<N>(nodes: Seq<Node<N>>, id: Seq<char>) -> Option<int> {
    first_in(id_pred(nodes, id), nodes.len() as int)
}

/// The edges of the graph as pairs of node indices, in edge order, for a
/// layout engine: each edge whose source and target exist gives the
/// indices of the first nodes with those IDs, as `u32`.
pub open spec fn layout_pairs<N, E>(nodes: Seq<Node<N>>, edges: Seq<Edge<E>>) -> Seq<(u32, u32)>
    decreases edges.len(),
{
    if edges.len() == 0 {
        Seq::empty()
    } else {
        let rest = layout_pairs(nodes, edges.drop_last());
        let e = edges.last();
        match (index_of(nodes, e.source@), index_of(nodes, e.target@)) {
            (Some(s), Some(t)) => rest.push((s as u32, t as u32)),
            _ => rest,
        }
    }
}

/// The index of the first node with ID `id`, as [`index_of`] says.
fn node_index<N>(nodes: &Vec<Node<N>>, id: &str) -> (r: Option<usize>)
    ensures
        match r {
            Some(i) => i < nodes@.len() && index_of(nodes@, id@) == Some(i as int),
            None => index_of(nodes@, id@) is None,
        },
{
    let r = find_node(nodes, id);
    let ghost p = id_pred(nodes@, id@);
    proof {
        lemma_first_in(p, nodes@.len() as int);
        match r {
            Some(i) => {
                assert(p(i as int));
                if let Some(j) = first_in(p, nodes@.len() as int) {
                    if j < i {
                        assert(nodes@[j].id@ != id@);
                    }
                    if (i as int) < j {
                        assert(!p(i as int));
                    }
                }
            },
            None => {
                if let Some(j) = first_in(p, nodes@.len() as int) {
                    assert(p(j));
                }
            },
        }
    }
    r
}

impl<N, E> Flow<N, E> {
    /// The edges as pairs of node indices for a layout engine (see
    /// [`layout_pairs`]).
    pub fn layout_edge_pairs(&self) -> (r: Vec<(u32, u32)>)
        ensures
            r@ == layout_pairs(self.node_seq(), self.edge_seq()),
    {
        let mut out: Vec<(u32, u32)> = Vec::new();
        let mut i: usize = 0;
        while i < self.edges.len()
            invariant
                i <= self.edges@.len(),
                out@ == layout_pairs(self.nodes@, self.edges@.take(i as int)),
            decreases self.edges@.len() - i,
        {
            let e = &self.edges[i];
            let s = node_index(&self.nodes, e.source.as_str());
            let t = node_index(&self.nodes, e.target.as_str());
            proof {
                assert(self.edges@.take(i + 1).drop_last() =~= self.edges@.take(i as int));
                assert(self.edges@.take(i + 1).last() == self.edges@[i as int]);
            }
            match (s, t) {
                (Some(a), Some(b)) => out.push((a as u32, b as u32)),
                _ => {},
            }
            i = i + 1;
        }
        assert(self.edges@.take(self.edges@.len() as int) =~= self.edges@);
        out
    }

    /// Gives the laid-out nodes (those whose index is listed) the handle
    /// sides of a layout in `direction`: edges leave toward the next layer
    /// and enter from the previous one. Indices out of range are skipped.
    pub fn set_layout_handle_positions(&mut self, laid_out: &Vec<usize>, direction: LayoutDirection)
        requires
            old(self).wf(),
        ensures
            final(self).wf(),
            final(self).same_settings(old(self)),
            final(self).edge_seq() == old(self).edge_seq(),
            final(self).node_seq().len() == old(self).node_seq().len(),
            forall|i: int| 0 <= i < old(self).node_seq().len() ==> #[trigger] final(self).node_seq()[i] == if laid_out@.contains(i as usize) {
                Node {
                    source_position: source_side(direction),
                    target_position: opposite_side(source_side(direction)),
                    ..old(self).node_seq()[i]
                }
            } else {
                old(self).node_seq()[i]
            },
    {
        let ghost ns = self.nodes@;
        let src = direction.source_position();
        let tgt = direction.target_position();
        let mut k: usize = 0;
        while k < laid_out.len()
            invariant
                self.wf(),
                self.same_settings(old(self)),
                self.edges@ == old(self).edge_seq(),
                ns == old(self).node_seq(),
                self.nodes@.len() == ns.len(),
                src == source_side(direction),
                tgt == opposite_side(source_side(direction)),
                k <= laid_out@.len(),
                forall|i: int| 0 <= i < ns.len() ==> #[trigger] self.nodes@[i] == if laid_out@.take(k as int).contains(i as usize) {
                    Node { source_position: src, target_position: tgt, ..ns[i] }
                } else {
                    ns[i]
                },
            decreases laid_out@.len() - k,
        {
            let v = laid_out[k];
            let ghost before = self.nodes@;
            if v < self.nodes.len() {
                self.nodes[v].source_position = src;
                self.nodes[v].target_position = tgt;
                proof {
                    crate::state::model::lemma_same_ids_wf(before, self.edges@, self.nodes@, self.edges@);
                }
            }
            proof {
                let t0 = laid_out@.take(k as int);
                let t1 = laid_out@.take(k + 1);
                assert(t1 =~= t0.push(v));
                assert forall|i: int| 0 <= i < ns.len() implies #[trigger] self.nodes@[i] == if t1.contains(i as usize) {
                    Node { source_position: src, target_position: tgt, ..ns[i] }
                } else {
                    ns[i]
                } by {
                    if i == v as int {
                        assert(t1[k as int] == v);
                    } else {
                        if t1.contains(i as usize) {
                            let j = choose|j: int| 0 <= j < t1.len() && t1[j] == i as usize;
                            assert(t0[j] == i as usize);
                        }
                        if t0.contains(i as usize) {
                            let j = choose|j: int| 0 <= j < t0.len() && t0[j] == i as usize;
                            assert(t1[j] == i as usize);
                        }
                    }
                }
            }
            k = k + 1;
        }
        assert(laid_out@.take(laid_out@.len() as int) =~= laid_out@);
    }
}

/// An edge of an edge list, as characters: source, target, label.
pub open spec fn list_edge_id(x: (Seq<char>, Seq<char>, Option<Seq<char>>)) -> Seq<char> {
    edge_id_spec(x.0, None, x.1, None)
}

/// The endpoints of an edge list, in order: each edge's source, then its target.
pub open spec fn endpoints(list: Seq<(Seq<char>, Seq<char>, Option<Seq<char>>)>) -> Seq<Seq<char>>
    decreases list.len(),
{
    if list.len() == 0 {
        Seq::empty()
    } else {
        endpoints(list.drop_last()).push(list.last().0).push(list.last().1)
    }
}

/// The distinct elements of `s`, in order of first appearance.
pub open spec fn dedup(s: Seq<Seq<char>>) -> Seq<Seq<char>>
    decreases s.len(),
{
    if s.len() == 0 {
        Seq::empty()
    } else {
        let r = dedup(s.drop_last());
        if r.contains(s.last()) { r } else { r.push(s.last()) }
    }
}

/// The predicate "edge `i` of the list has the ID of an earlier one".
pub open spec fn list_dup_pred(list: Seq<(Seq<char>, Seq<char>, Option<Seq<char>>)>) -> spec_fn(int) -> bool {
    |i: int| exists|j: int| 0 <= j < i && #[trigger] list_edge_id(list[j]) == list_edge_id(list[i])
}

/// The predicate "edge `i` of the list joins a node to itself".
pub open spec fn self_loop_pred(list: Seq<(Seq<char>, Seq<char>, Option<Seq<char>>)>) -> spec_fn(int) -> bool {
    |i: int| list[i].0 == list[i].1
}

/// The first problem of the graph an edge list makes: an edge whose ID
/// repeats an earlier one, then an edge joining a node to itself.
pub open spec fn list_problem(list: Seq<(Seq<char>, Seq<char>, Option<Seq<char>>)>) -> Option<GraphProblem> {
    match first_in(list_dup_pred(list), list.len() as int) {
        Some(i) => Some(GraphProblem::DuplicateEdge(list_edge_id(list[i]))),
        None => match first_in(self_loop_pred(list), list.len() as int) {
            Some(i) => Some(GraphProblem::SelfReferential(list_edge_id(list[i]), list[i].0)),
            None => None,
        },
    }
}

/// A node as `Node::new` makes it, with its label as ID and content.
pub open spec fn plain_node(n: Node<String>, label: Seq<char>) -> bool {
    &&& n.id@ == label
    &&& n.content@ == label
    &&& !n.hidden
    &&& n.z_index == 0
    &&& !n.selected
    &&& n.selectable
    &&& n.deletable
    &&& n.draggable
    &&& !n.resizable
    &&& n.connectable
    &&& n.parent_id is None
    &&& !n.expand_parent
    &&& n.opaque
    &&& n.handles@.len() == 0
    &&& n.source_position == HandlePosition::Right
    &&& n.target_position == HandlePosition::Left
}

/// An edge as `Edge::new` makes it from an edge of a list, with the
/// connection's ID and the list's label.
pub open spec fn plain_edge<E>(e: Edge<E>, x: (Seq<char>, Seq<char>, Option<Seq<char>>)) -> bool {
    &&& e.id@ == list_edge_id(x)
    &&& e.source@ == x.0
    &&& e.target@ == x.1
    &&& opt_chars(e.label) == x.2
    &&& e.source_handle is None
    &&& e.target_handle is None
    &&& !e.hidden
    &&& e.deletable
    &&& e.selectable
    &&& !e.selected
    &&& !e.animated
    &&& e.reconnectable == Reconnectable::Inherit
}

/// `ns` holds one plain node per label, in order.
pub open spec fn built_nodes(ns: Seq<Node<String>>, labels: Seq<Seq<char>>) -> bool {
    ns.len() == labels.len() && forall|i: int| 0 <= i < ns.len() ==> plain_node(#[trigger] ns[i], labels[i])
}

/// `es` holds one plain edge per edge of the list, in order.
pub open spec fn built_edges<E>(es: Seq<Edge<E>>, list: Seq<(Seq<char>, Seq<char>, Option<Seq<char>>)>) -> bool {
    es.len() == list.len() && forall|i: int| 0 <= i < es.len() ==> plain_edge(#[trigger] es[i], list[i])
}

/// The distinct elements hold each element once and every element of `s`.
pub proof fn lemma_dedup(s: Seq<Seq<char>>)
    ensures
        forall|i: int, j: int| 0 <= i < j < dedup(s).len() ==> dedup(s)[i] != dedup(s)[j],
        forall|k: int| 0 <= k < s.len() ==> dedup(s).contains(#[trigger] s[k]),
    decreases s.len(),
{
    if s.len() > 0 {
        let t = s.drop_last();
        lemma_dedup(t);
        let r = dedup(t);
        assert forall|k: int| 0 <= k < s.len() implies dedup(s).contains(#[trigger] s[k]) by {
            if k < s.len() - 1 {
                assert(t[k] == s[k]);
                assert(r.contains(t[k]));
                let m = choose|m: int| 0 <= m < r.len() && r[m] == t[k];
                if !r.contains(s.last()) {
                    assert(dedup(s)[m] == s[k]);
                }
            } else if !r.contains(s.last()) {
                assert(dedup(s)[r.len() as int] == s[k]);
            }
        }
    }
}

/// Every source and target of a list is among its endpoints.
pub proof fn lemma_endpoints(list: Seq<(Seq<char>, Seq<char>, Option<Seq<char>>)>)
    ensures
        forall|i: int| 0 <= i < list.len() ==> endpoints(list).contains(#[trigger] list[i].0)
            && endpoints(list).contains(list[i].1),
    decreases list.len(),
{
    if list.len() > 0 {
        let t = list.drop_last();
        lemma_endpoints(t);
        let e = endpoints(t);
        let full = endpoints(list);
        assert forall|i: int| 0 <= i < list.len() implies full.contains(#[trigger] list[i].0) && full.contains(list[i].1) by {
            if i < list.len() - 1 {
                assert(t[i] == list[i]);
                let a = choose|m: int| 0 <= m < e.len() && e[m] == t[i].0;
                let b = choose|m: int| 0 <= m < e.len() && e[m] == t[i].1;
                assert(full[a] == list[i].0);
                assert(full[b] == list[i].1);
            } else {
                assert(full[e.len() as int] == list[i].0);
                assert(full[e.len() as int + 1] == list[i].1);
            }
        }
    }
}

/// The graph built from an edge list has exactly the list's problem.
pub proof fn lemma_built_problem<E>(
    list: Seq<(Seq<char>, Seq<char>, Option<Seq<char>>)>,
    ns: Seq<Node<String>>,
    es: Seq<Edge<E>>,
)
    requires
        built_nodes(ns, dedup(endpoints(list))),
        built_edges(es, list),
    ensures
        graph_problem(ns, es) == list_problem(list),
{
    let labels = dedup(endpoints(list));
    lemma_dedup(endpoints(list));
    lemma_endpoints(list);
    let pn = node_dup_pred(ns);
    lemma_first_in(pn, ns.len() as int);
    if let Some(i) = first_in(pn, ns.len() as int) {
        assert(pn(i));
        let j = choose|j: int| 0 <= j < i && (#[trigger] ns[j]).id@ == ns[i].id@;
        assert(plain_node(ns[j], labels[j]));
        assert(plain_node(ns[i], labels[i]));
        assert(false);
    }
    let pe = edge_dup_pred(es);
    let pl = list_dup_pred(list);
    assert forall|i: int| 0 <= i < es.len() implies #[trigger] pe(i) == pl(i) by {
        assert(plain_edge(es[i], list[i]));
        if pe(i) {
            let j = choose|j: int| 0 <= j < i && (#[trigger] es[j]).id@ == es[i].id@;
            assert(plain_edge(es[j], list[j]));
            assert(list_edge_id(list[j]) == list_edge_id(list[i]));
        }
        if pl(i) {
            let j = choose|j: int| 0 <= j < i && #[trigger] list_edge_id(list[j]) == list_edge_id(list[i]);
            assert(plain_edge(es[j], list[j]));
            assert(es[j].id@ == es[i].id@);
        }
    }
    lemma_first_in_agree(pe, pl, es.len() as int);
    if let Some(i) = first_in(pl, list.len() as int) {
        lemma_first_in(pl, list.len() as int);
        assert(plain_edge(es[i], list[i]));
    } else {
        let member = member_of(ns);
        let pp = edge_problem_pred::<String, E>(member, es);
        let ps = self_loop_pred(list);
        assert forall|i: int| 0 <= i < es.len() implies #[trigger] pp(i) == ps(i) by {
            assert(plain_edge(es[i], list[i]));
            assert(labels.contains(list[i].0));
            assert(labels.contains(list[i].1));
            let a = choose|m: int| 0 <= m < labels.len() && labels[m] == list[i].0;
            let b = choose|m: int| 0 <= m < labels.len() && labels[m] == list[i].1;
            assert(plain_node(ns[a], labels[a]));
            assert(plain_node(ns[b], labels[b]));
            assert(has_node(ns, es[i].source@));
            assert(has_node(ns, es[i].target@));
        }
        lemma_first_in_agree(pp, ps, es.len() as int);
        lemma_first_in(ps, list.len() as int);
        if let Some(i) = first_in(ps, list.len() as int) {
            assert(plain_edge(es[i], list[i]));
        } else {
            let pq = node_problem_pred(member, ns);
            lemma_first_in(pq, ns.len() as int);
            if let Some(i) = first_in(pq, ns.len() as int) {
                assert(pq(i));
                assert(plain_node(ns[i], labels[i]));
                assert(typed_count(ns[i].handles@, HandleType::Source) == 0);
                assert(typed_count(ns[i].handles@, HandleType::Target) == 0);
                assert(false);
            }
        }
    }
}

/// The edges of a list, as characters.
pub open spec fn edge_views<'a, D: IntoEdge<'a>>(s: Seq<D>) -> Seq<(Seq<char>, Seq<char>, Option<Seq<char>>)> {
    s.map_values(|d: D| d.edge_view())
}

/// Adds `x` to `labels` unless a label with its characters is there.
fn add_label(labels: &mut Vec<String>, x: &str)
    ensures
        strings_view(final(labels)@) == if strings_view(old(labels)@).contains(x@) {
            strings_view(old(labels)@)
        } else {
            strings_view(old(labels)@).push(x@)
        },
{
    let ghost view = strings_view(labels@);
    let mut i: usize = 0;
    while i < labels.len()
        invariant
            i <= labels@.len(),
            view == strings_view(labels@),
            forall|k: int| 0 <= k < i ==> view[k] != x@,
        decreases labels@.len() - i,
    {
        if string_is(&labels[i], x) {
            assert(view[i as int] == x@);
            return;
        }
        i = i + 1;
    }
    assert(!view.contains(x@));
    let ghost before = labels@;
    labels.push(owned(x));
    assert(strings_view(labels@) =~= strings_view(before).push(x@));
}

impl<E: Default> Flow<String, E> {
    /// Builds a flow from a list of edges: one node per distinct endpoint, in
    /// order of first appearance, with the endpoint as ID and content; one
    /// edge per list entry, with the ID of its connection and the entry's
    /// label.
    ///
    /// Fails like [`Flow::with_graph`]: on an edge whose ID repeats an
    /// earlier one, then on an edge joining a node to itself.
    pub fn from_edges<'a, D: IntoEdge<'a> + Copy>(edges: &[D]) -> (r: Result<Self, Error>)
        ensures
            match list_problem(edge_views(edges@)) {
                Some(p) => r matches Err(e) && reports(e, p),
                None => r matches Ok(f) && f.wf() && f.has_default_settings() && f.snapshot_matches_selection()
                    && f.preview() is None
                    && built_nodes(f.node_seq(), dedup(endpoints(edge_views(edges@))))
                    && built_edges(f.edge_seq(), edge_views(edges@)),
            },
    {
        let ghost list = edge_views(edges@);
        let mut labels: Vec<String> = Vec::new();
        let mut i: usize = 0;
        while i < edges.len()
            invariant
                i <= edges@.len(),
                list == edge_views(edges@),
                strings_view(labels@) == dedup(endpoints(list.take(i as int))),
            decreases edges@.len() - i,
        {
            let d = edges[i];
            let (s, t, _) = d.into_edge();
            let ghost e0 = endpoints(list.take(i as int));
            add_label(&mut labels, s);
            add_label(&mut labels, t);
            proof {
                let t1 = list.take(i + 1);
                assert(t1.drop_last() =~= list.take(i as int));
                assert(t1.last() == list[i as int]);
                assert(list[i as int] == d.edge_view());
                assert(e0.push(s@).drop_last() =~= e0);
                assert(e0.push(s@).push(t@).drop_last() =~= e0.push(s@));
                assert(endpoints(t1) == e0.push(s@).push(t@));
                let d0 = dedup(e0);
                let d1 = if d0.contains(s@) { d0 } else { d0.push(s@) };
                assert(dedup(e0.push(s@)) == d1);
                assert(dedup(e0.push(s@).push(t@)) == if d1.contains(t@) { d1 } else { d1.push(t@) });
            }
            i = i + 1;
        }
        assert(list.take(edges@.len() as int) =~= list);
        let ghost labels_view = strings_view(labels@);
        let mut nodes: Vec<Node<String>> = Vec::new();
        let mut k: usize = 0;
        while k < labels.len()
            invariant
                k <= labels@.len(),
                labels_view == strings_view(labels@),
                nodes@.len() == k,
                forall|j: int| 0 <= j < k ==> plain_node(#[trigger] nodes@[j], labels_view[j]),
            decreases labels@.len() - k,
        {
            let n = Node::new(labels[k].as_str(), copy_string(&labels[k]));
            nodes.push(n);
            k = k + 1;
        }
        let mut es: Vec<Edge<E>> = Vec::new();
        let mut m: usize = 0;
        while m < edges.len()
            invariant
                m <= edges@.len(),
                list == edge_views(edges@),
                es@.len() == m,
                forall|j: int| 0 <= j < m ==> plain_edge(#[trigger] es@[j], list[j]),
            decreases edges@.len() - m,
        {
            let d = edges[m];
            let (s, t, label) = d.into_edge();
            let c = Connection::new(s, None, t, None);
            let id = c.edge_id();
            let mut e: Edge<E> = Edge::new(id.as_str(), s, t);
            match label {
                Some(l) => {
                    e = e.with_label(l);
                },
                None => {},
            }
            assert(list[m as int] == d.edge_view());
            es.push(e);
            m = m + 1;
        }
        proof {
            lemma_built_problem(list, nodes@, es@);
        }
        Self::with_graph(nodes, es)
    }
}

/// Where an edge attaches: the indices of its source node, of the source
/// handle among that node's handles, of its target node and of the target
/// handle (see [`get_handle`]), when both nodes exist and both handles are
/// found.
pub open spec fn edge_anchor<N, E>(nodes: Seq<Node<N>>, e: Edge<E>, mode: ConnectionMode) -> Option<(int, int, int, int)> {
    match (index_of(nodes, e.source@), index_of(nodes, e.target@)) {
        (Some(s), Some(t)) => match (
            get_handle(node_handles(nodes[s]), opt_chars(e.source_handle), HandleType::Source, mode),
            get_handle(node_handles(nodes[t]), opt_chars(e.target_handle), HandleType::Target, mode),
        ) {
            (Some(a), Some(b)) => Some((s, a, t, b)),
            _ => None,
        },
        _ => None,
    }
}

impl<N, E> Flow<N, E> {
    /// The handle of node `i` an edge end with the given ID and type
    /// attaches to.
    fn handle_at(&self, i: usize, id: Option<&str>, t: HandleType) -> (r: Option<usize>)
        requires
            i < self.node_seq().len(),
        ensures
            match r {
                Some(h) => get_handle(node_handles(self.node_seq()[i as int]), opt_str_chars(id), t, self.mode()) == Some(h as int),
                None => get_handle(node_handles(self.node_seq()[i as int]), opt_str_chars(id), t, self.mode()) is None,
            },
    {
        let n = &self.nodes[i];
        match handles_of_node(n) {
            Some(d) => get_handle_index(&d, id, t, self.connection_mode),
            None => get_handle_index(&n.handles, id, t, self.connection_mode),
        }
    }

    /// Where edge `k` attaches, as [`edge_anchor`] says.
    pub fn resolve_edge_handles(&self, k: usize) -> (r: Option<(usize, usize, usize, usize)>)
        requires
            k < self.edge_seq().len(),
        ensures
            match r {
                Some((s, a, t, b)) => edge_anchor(self.node_seq(), self.edge_seq()[k as int], self.mode())
                    == Some((s as int, a as int, t as int, b as int)),
                None => edge_anchor(self.node_seq(), self.edge_seq()[k as int], self.mode()) is None,
            },
    {
        let e = &self.edges[k];
        let s = match node_index(&self.nodes, e.source.as_str()) {
            Some(s) => s,
            None => return None,
        };
        let t = match node_index(&self.nodes, e.target.as_str()) {
            Some(t) => t,
            None => return None,
        };
        let sh = match &e.source_handle {
            Some(h) => Some(h.as_str()),
            None => None,
        };
        let th = match &e.target_handle {
            Some(h) => Some(h.as_str()),
            None => None,
        };
        let a = match self.handle_at(s, sh, HandleType::Source) {
            Some(a) => a,
            None => return None,
        };
        let b = match self.handle_at(t, th, HandleType::Target) {
            Some(b) => b,
            None => return None,
        };
        Some((s, a, t, b))
    }
}

} // verus!
