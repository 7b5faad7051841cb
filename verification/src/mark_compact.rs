//! Mark-and-compact garbage collection for pruning graphs.
//!
//! The collector prunes a graph so that only the components reachable from a
//! set of root vertices are retained. The mark phase walks the graph breadth
//! first from the roots, assigning each vertex and edge a new, densely packed
//! id in discovery order; the sweep phase relocates the survivors to their
//! new slots and rewrites every internal reference. Running time and memory
//! are linear in graph size.
//!
//! The contracts below pin the result down exactly: the discovery orders are
//! defined by the spec-level breadth-first walk [`mark_orders`], and
//! [`pruned`] states how the output graph is assembled from them.

use vstd::prelude::*;

use std::hash::Hash;

use vstd::seq_lib::group_seq_properties;
use vstd::set_lib::set_int_range;

use crate::base::{EdgeId, RawEdge, RawVertex, VertexId};
use crate::Graph;

verus! {

/// A valid discovery order over the vertices of `g`: every entry is in
/// range, and no vertex occurs twice.
pub open spec fn vorder_ok<T: Hash + Eq + Clone, S, A>(g: Graph<T, S, A>, vorder: Seq<int>) -> bool {
    &&& forall|k: int| 0 <= k < vorder.len() ==> 0 <= #[trigger] vorder[k] < g.vertices@.len()
    &&& forall|k1: int, k2: int| 0 <= k1 < k2 < vorder.len() ==> vorder[k1] != vorder[k2]
}

/// A valid discovery order over the edges of `g`.
pub open spec fn eorder_ok<T: Hash + Eq + Clone, S, A>(g: Graph<T, S, A>, eorder: Seq<int>) -> bool {
    &&& forall|k: int| 0 <= k < eorder.len() ==> 0 <= #[trigger] eorder[k] < g.arcs@.len()
    &&& forall|k1: int, k2: int| 0 <= k1 < k2 < eorder.len() ==> eorder[k1] != eorder[k2]
}

/// Folds one vertex's child edges, from position `k` on, into the discovery
/// orders: each child edge and its target vertex are appended on first
/// encounter. Entries that do not address the well-formed graph (these never
/// arise on a graph satisfying `wf`) are skipped to keep the walk total.
pub open spec fn bfs_scan_children<T: Hash + Eq + Clone, S, A>(
    g: Graph<T, S, A>,
    vorder: Seq<int>,
    eorder: Seq<int>,
    cs: Seq<EdgeId>,
    k: int,
) -> (Seq<int>, Seq<int>)
    decreases cs.len() - k,
{
    if k < 0 || k >= cs.len() {
        (vorder, eorder)
    } else {
        let e = cs[k].0 as int;
        if e < g.arcs@.len() && g.arcs@[e].target.0 < g.vertices@.len() {
            let t = g.arcs@[e].target.0 as int;
            let vorder2 = if vorder.contains(t) {
                vorder
            } else {
                vorder.push(t)
            };
            let eorder2 = if eorder.contains(e) {
                eorder
            } else {
                eorder.push(e)
            };
            bfs_scan_children(g, vorder2, eorder2, cs, k + 1)
        } else {
            bfs_scan_children(g, vorder, eorder, cs, k + 1)
        }
    }
}

/// The breadth-first walk: process the discovery order from position `p`,
/// appending newly found vertices and edges, until the order is exhausted.
pub open spec fn bfs_loop<T: Hash + Eq + Clone, S, A>(
    g: Graph<T, S, A>,
    vorder: Seq<int>,
    eorder: Seq<int>,
    p: int,
) -> (Seq<int>, Seq<int>)
    decreases g.vertices@.len() + 1 - p,
        when 0 <= p && vorder_ok(g, vorder) via bfs_loop_decreases::<T, S, A>
{
    if p >= vorder.len() {
        (vorder, eorder)
    } else {
        let step = bfs_scan_children(g, vorder, eorder, g.vertices@[vorder[p]].children@, 0);
        bfs_loop(g, step.0, step.1, p + 1)
    }
}

#[via_fn]
proof fn bfs_loop_decreases<T: Hash + Eq + Clone, S, A>(
    g: Graph<T, S, A>,
    vorder: Seq<int>,
    eorder: Seq<int>,
    p: int,
) {
    if p < vorder.len() {
        lemma_vorder_len(g, vorder);
    }
}

/// A valid vertex discovery order has at most as many entries as the graph
/// has vertices.
pub proof fn lemma_vorder_len<T: Hash + Eq + Clone, S, A>(g: Graph<T, S, A>, vorder: Seq<int>)
    requires
        vorder_ok(g, vorder),
    ensures
        vorder.len() <= g.vertices@.len(),
{
    broadcast use group_seq_properties;
    broadcast use vstd::set_lib::group_set_lib_default;
    broadcast use vstd::set::group_set_axioms;

    let n = g.vertices@.len() as int;
    assert(vorder.no_duplicates());
    vorder.unique_seq_to_set();
    let range = set_int_range(0, n);
    vstd::set_lib::lemma_int_range(0, n);
    assert forall|x: int| vorder.to_set().contains(x) implies range.contains(x) by {
        let k = choose|k: int| 0 <= k < vorder.len() && vorder[k] == x;
        assert(0 <= vorder[k] < n);
    }
    assert(vorder.to_set().subset_of(range));
    vstd::set_lib::lemma_len_subset(vorder.to_set(), range);
}

/// A valid edge discovery order has at most as many entries as the graph
/// has edges.
pub proof fn lemma_eorder_len<T: Hash + Eq + Clone, S, A>(g: Graph<T, S, A>, eorder: Seq<int>)
    requires
        eorder_ok(g, eorder),
    ensures
        eorder.len() <= g.arcs@.len(),
{
    broadcast use group_seq_properties;
    broadcast use vstd::set_lib::group_set_lib_default;
    broadcast use vstd::set::group_set_axioms;

    let m = g.arcs@.len() as int;
    assert(eorder.no_duplicates());
    eorder.unique_seq_to_set();
    let range = set_int_range(0, m);
    vstd::set_lib::lemma_int_range(0, m);
    assert forall|x: int| eorder.to_set().contains(x) implies range.contains(x) by {
        let k = choose|k: int| 0 <= k < eorder.len() && eorder[k] == x;
        assert(0 <= eorder[k] < m);
    }
    assert(eorder.to_set().subset_of(range));
    vstd::set_lib::lemma_len_subset(eorder.to_set(), range);
}

/// `bfs_scan_children` preserves validity of both discovery orders and only
/// extends them.
pub proof fn lemma_bfs_scan_children_ok<T: Hash + Eq + Clone, S, A>(
    g: Graph<T, S, A>,
    vorder: Seq<int>,
    eorder: Seq<int>,
    cs: Seq<EdgeId>,
    k: int,
)
    requires
        vorder_ok(g, vorder),
        eorder_ok(g, eorder),
    ensures
        ({
            let r = bfs_scan_children(g, vorder, eorder, cs, k);
            &&& vorder_ok(g, r.0)
            &&& eorder_ok(g, r.1)
            &&& r.0.len() >= vorder.len()
            &&& r.0.take(vorder.len() as int) == vorder
            &&& r.1.len() >= eorder.len()
            &&& r.1.take(eorder.len() as int) == eorder
        }),
    decreases cs.len() - k,
{
    broadcast use group_seq_properties;

    if k < 0 || k >= cs.len() {
    } else {
        let e = cs[k].0 as int;
        if e < g.arcs@.len() && g.arcs@[e].target.0 < g.vertices@.len() {
            let t = g.arcs@[e].target.0 as int;
            let vorder2 = if vorder.contains(t) {
                vorder
            } else {
                vorder.push(t)
            };
            let eorder2 = if eorder.contains(e) {
                eorder
            } else {
                eorder.push(e)
            };
            assert(vorder_ok(g, vorder2)) by {
                if !vorder.contains(t) {
                    assert forall|k1: int, k2: int|
                        0 <= k1 < k2 < vorder2.len() implies vorder2[k1] != vorder2[k2] by {
                        if k2 == vorder.len() {
                            assert(vorder2[k1] == vorder[k1]);
                            assert(!vorder.contains(t) ==> vorder[k1] != t);
                        }
                    }
                }
            }
            assert(eorder_ok(g, eorder2)) by {
                if !eorder.contains(e) {
                    assert forall|k1: int, k2: int|
                        0 <= k1 < k2 < eorder2.len() implies eorder2[k1] != eorder2[k2] by {
                        if k2 == eorder.len() {
                            assert(eorder2[k1] == eorder[k1]);
                            assert(!eorder.contains(e) ==> eorder[k1] != e);
                        }
                    }
                }
            }
            lemma_bfs_scan_children_ok(g, vorder2, eorder2, cs, k + 1);
            let r = bfs_scan_children(g, vorder, eorder, cs, k);
            assert(r.0.take(vorder.len() as int) == r.0.take(vorder2.len() as int).take(
                vorder.len() as int,
            ));
            assert(r.0.take(vorder2.len() as int).take(vorder.len() as int) == vorder2.take(
                vorder.len() as int,
            ));
            assert(vorder2.take(vorder.len() as int) == vorder);
            assert(r.1.take(eorder.len() as int) == r.1.take(eorder2.len() as int).take(
                eorder.len() as int,
            ));
            assert(r.1.take(eorder2.len() as int).take(eorder.len() as int) == eorder2.take(
                eorder.len() as int,
            ));
            assert(eorder2.take(eorder.len() as int) == eorder);
        } else {
            lemma_bfs_scan_children_ok(g, vorder, eorder, cs, k + 1);
        }
    }
}

/// Seeds the vertex discovery order from the root list: roots are taken in
/// the order given, each on its first occurrence only, skipping ids that do
/// not address a vertex.
pub open spec fn seed_roots<T: Hash + Eq + Clone, S, A>(
    g: Graph<T, S, A>,
    roots: Seq<VertexId>,
) -> Seq<int>
    decreases roots.len(),
{
    if roots.len() == 0 {
        Seq::empty()
    } else {
        let pre = seed_roots(g, roots.drop_last());
        let v = roots.last().0 as int;
        if v < g.vertices@.len() && !pre.contains(v) {
            pre.push(v)
        } else {
            pre
        }
    }
}

/// The seeded order is a valid discovery order.
pub proof fn lemma_seed_roots_ok<T: Hash + Eq + Clone, S, A>(
    g: Graph<T, S, A>,
    roots: Seq<VertexId>,
)
    ensures
        vorder_ok(g, seed_roots(g, roots)),
    decreases roots.len(),
{
    if roots.len() == 0 {
    } else {
        lemma_seed_roots_ok(g, roots.drop_last());
        let pre = seed_roots(g, roots.drop_last());
        let v = roots.last().0 as int;
        if v < g.vertices@.len() && !pre.contains(v) {
            let cur = pre.push(v);
            assert forall|k1: int, k2: int| 0 <= k1 < k2 < cur.len() implies cur[k1] != cur[k2] by {
                if k2 == pre.len() {
                    assert(cur[k1] == pre[k1]);
                    assert(pre[k1] != v);
                }
            }
        }
    }
}

/// The two discovery orders produced by a full mark pass over `g` starting
/// from `roots`: new vertex id `k` goes to the old vertex `vorder[k]`, and
/// new edge id `j` to the old edge `eorder[j]`. The orders are breadth-first
/// discovery orders, so the renumbering is deterministic given the roots and
/// the adjacency.
pub open spec fn mark_orders<T: Hash + Eq + Clone, S, A>(
    g: Graph<T, S, A>,
    roots: Seq<VertexId>,
) -> (Seq<int>, Seq<int>) {
    bfs_loop(g, seed_roots(g, roots), Seq::empty(), 0)
}

/// New id of the old vertex `v` under the discovery order `vorder`.
pub open spec fn renumbered_vertex(vorder: Seq<int>, v: int) -> VertexId {
    VertexId(vorder.index_of(v) as usize)
}

/// New id of the old edge `e` under the discovery order `eorder`.
pub open spec fn renumbered_edge(eorder: Seq<int>, e: int) -> EdgeId {
    EdgeId(eorder.index_of(e) as usize)
}

/// Exact description of a pruned graph: `post` is `pre` restricted to the
/// vertices and edges discovered by the mark pass from `roots`, relocated to
/// their discovery positions, with every internal reference renumbered.
/// Parent lists keep only surviving edges, in their original relative order.
pub open spec fn pruned<T: Hash + Eq + Clone, S, A>(
    pre: Graph<T, S, A>,
    roots: Seq<VertexId>,
    post: Graph<T, S, A>,
) -> bool {
    let orders = mark_orders(pre, roots);
    let vorder = orders.0;
    let eorder = orders.1;
    &&& post.vertices@.len() == vorder.len()
    &&& post.states@.len() == vorder.len()
    &&& post.arcs@.len() == eorder.len()
    &&& forall|k: int|
        0 <= k < vorder.len() ==> #[trigger] post.states@[k] == pre.states@[vorder[k]]
    &&& forall|k: int|
        0 <= k < vorder.len() ==> (#[trigger] post.vertices@[k]).data
            == pre.vertices@[vorder[k]].data
    &&& forall|k: int|
        0 <= k < vorder.len() ==> (#[trigger] post.vertices@[k]).children@
            == pre.vertices@[vorder[k]].children@.map_values(
            |c: EdgeId| renumbered_edge(eorder, c.0 as int),
        )
    &&& forall|k: int|
        0 <= k < vorder.len() ==> (#[trigger] post.vertices@[k]).parents@
            == pre.vertices@[vorder[k]].parents@.filter(
            |c: EdgeId| eorder.contains(c.0 as int),
        ).map_values(|c: EdgeId| renumbered_edge(eorder, c.0 as int))
    &&& forall|j: int|
        0 <= j < eorder.len() ==> (#[trigger] post.arcs@[j]).data == pre.arcs@[eorder[j]].data
    &&& forall|j: int|
        0 <= j < eorder.len() ==> (#[trigger] post.arcs@[j]).source == renumbered_vertex(
            vorder,
            pre.arcs@[eorder[j]].source.0 as int,
        )
    &&& forall|j: int|
        0 <= j < eorder.len() ==> (#[trigger] post.arcs@[j]).target == renumbered_vertex(
            vorder,
            pre.arcs@[eorder[j]].target.0 as int,
        )
}

/// With linked maps, a vertex is in the discovery order iff its map entry is
/// set.
pub proof fn lemma_contains_iff_marked<T: Hash + Eq + Clone, S, A>(
    c: Collector,
    g: Graph<T, S, A>,
    v: int,
)
    requires
        c.maps_linked(g),
        0 <= v < g.vertices@.len(),
    ensures
        c.vorder().contains(v) <==> c.state_id_map@[v] is Some,
{
    if c.state_id_map@[v] is Some {
        let nk = c.state_id_map@[v].unwrap().0 as int;
        assert(c.frontier@[nk].0 as int == v);
        assert(c.vorder()[nk] == v);
    }
    if c.vorder().contains(v) {
        let k = choose|k: int| 0 <= k < c.vorder().len() && c.vorder()[k] == v;
        assert(c.state_id_map@[(c.frontier@[k]).0 as int] == Some(VertexId(k as usize)));
    }
}

/// With linked maps, an edge is in the discovery order iff its map entry is
/// set.
pub proof fn lemma_arc_contains_iff_marked<T: Hash + Eq + Clone, S, A>(
    c: Collector,
    g: Graph<T, S, A>,
    e: int,
)
    requires
        c.maps_linked(g),
        0 <= e < g.arcs@.len(),
    ensures
        c.eorder().contains(e) <==> c.arc_id_map@[e] is Some,
{
    if c.arc_id_map@[e] is Some {
        let nj = c.arc_id_map@[e].unwrap().0 as int;
        assert(c.marked_arcs@[nj].0 as int == e);
        assert(c.eorder()[nj] == e);
    }
    if c.eorder().contains(e) {
        let j = choose|j: int| 0 <= j < c.eorder().len() && c.eorder()[j] == e;
        assert(c.arc_id_map@[(c.marked_arcs@[j]).0 as int] == Some(EdgeId(j as usize)));
    }
}

/// Linked maps make both discovery orders valid.
pub proof fn lemma_linked_orders_ok<T: Hash + Eq + Clone, S, A>(c: Collector, g: Graph<T, S, A>)
    requires
        c.maps_linked(g),
    ensures
        vorder_ok(g, c.vorder()),
        eorder_ok(g, c.eorder()),
{
    assert forall|k: int|
        0 <= k < c.vorder().len() implies 0 <= #[trigger] c.vorder()[k]
        < g.vertices@.len() by {
        assert(c.frontier@[k].0 < g.vertices@.len());
    }
    assert forall|k1: int, k2: int|
        0 <= k1 < k2 < c.vorder().len() implies c.vorder()[k1] != c.vorder()[k2] by {
        if c.vorder()[k1] == c.vorder()[k2] {
            assert(c.state_id_map@[(c.frontier@[k1]).0 as int] == Some(VertexId(k1 as usize)));
            assert(c.state_id_map@[(c.frontier@[k2]).0 as int] == Some(VertexId(k2 as usize)));
            assert(false);
        }
    }
    assert forall|k: int|
        0 <= k < c.eorder().len() implies 0 <= #[trigger] c.eorder()[k] < g.arcs@.len() by {
        assert(c.marked_arcs@[k].0 < g.arcs@.len());
    }
    assert forall|k1: int, k2: int|
        0 <= k1 < k2 < c.eorder().len() implies c.eorder()[k1] != c.eorder()[k2] by {
        if c.eorder()[k1] == c.eorder()[k2] {
            assert(c.arc_id_map@[(c.marked_arcs@[k1]).0 as int] == Some(EdgeId(k1 as usize)));
            assert(c.arc_id_map@[(c.marked_arcs@[k2]).0 as int] == Some(EdgeId(k2 as usize)));
            assert(false);
        }
    }
}

/// Every element of a filtered sequence occurs in the original sequence.
pub proof fn lemma_filter_elem_of<X>(s: Seq<X>, pred: spec_fn(X) -> bool, i: int)
    requires
        0 <= i < s.filter(pred).len(),
    ensures
        s.contains(s.filter(pred)[i]),
    decreases s.len(),
{
    reveal(Seq::filter);
    broadcast use group_seq_properties;

    if s.len() == 0 {
    } else {
        let sub = s.drop_last().filter(pred);
        if pred(s.last()) && i == sub.len() {
            assert(s.filter(pred)[i] == s.last());
        } else {
            lemma_filter_elem_of(s.drop_last(), pred, i);
            let q = choose|q: int|
                0 <= q < s.drop_last().len() && s.drop_last()[q] == s.drop_last().filter(pred)[i];
            assert(s[q] == s.filter(pred)[i]);
        }
    }
}

/// The graph assembled by the sweep from a closed mark pass is well formed.
pub proof fn lemma_sweep_result_wf<T: Hash + Eq + Clone, S, A>(
    c: Collector,
    og: Graph<T, S, A>,
    post: Graph<T, S, A>,
)
    requires
        og.wf(),
        c.mark_closed(og),
        post.vertices@.len() == c.frontier@.len(),
        post.states@.len() == c.frontier@.len(),
        post.arcs@.len() == c.marked_arcs@.len(),
        forall|k: int|
            0 <= k < c.frontier@.len() ==> {
                let ov = (#[trigger] c.frontier@[k]).0 as int;
                &&& post.states@[k] == og.states@[ov]
                &&& post.vertices@[k].children@ == og.vertices@[ov].children@.map_values(
                    |e: EdgeId| c.arc_id_map@[e.0 as int].unwrap(),
                )
                &&& post.vertices@[k].parents@ == og.vertices@[ov].parents@.filter(
                    |e: EdgeId| c.arc_id_map@[e.0 as int] is Some,
                ).map_values(|e: EdgeId| c.arc_id_map@[e.0 as int].unwrap())
            },
        forall|j: int|
            0 <= j < c.marked_arcs@.len() ==> {
                let oe = (#[trigger] c.marked_arcs@[j]).0 as int;
                &&& post.arcs@[j].source == c.state_id_map@[og.arcs@[oe].source.0 as int].unwrap()
                &&& post.arcs@[j].target == c.state_id_map@[og.arcs@[oe].target.0 as int].unwrap()
            },
    ensures
        post.wf(),
{
    let cmap = |e: EdgeId| c.arc_id_map@[e.0 as int].unwrap();
    let cpred = |e: EdgeId| c.arc_id_map@[e.0 as int] is Some;
    assert forall|k1: int, k2: int|
        0 <= k1 < post.states@.len() && 0 <= k2 < post.states@.len() && k1
            != k2 implies post.states@[k1] != post.states@[k2] by {
        let ov1 = (c.frontier@[k1]).0 as int;
        let ov2 = (c.frontier@[k2]).0 as int;
        assert(c.state_id_map@[ov1] == Some(VertexId(k1 as usize)));
        assert(c.state_id_map@[ov2] == Some(VertexId(k2 as usize)));
        assert(ov1 != ov2);
        assert(og.states@[ov1] != og.states@[ov2]);
    }
    assert forall|j: int| 0 <= j < post.arcs@.len() implies #[trigger] post.arc_wf(j) by {
        let oe = (c.marked_arcs@[j]).0 as int;
        assert(og.arc_wf(oe));
        let os = og.arcs@[oe].source.0 as int;
        let ot = og.arcs@[oe].target.0 as int;
        assert(c.state_id_map@[os] is Some);
        assert(c.state_id_map@[ot] is Some);
        assert(post.arcs@[j].source == c.state_id_map@[os].unwrap());
        assert((c.state_id_map@[os].unwrap().0 as int) < c.frontier@.len() as int);
        assert(post.arcs@[j].target == c.state_id_map@[ot].unwrap());
        assert((c.state_id_map@[ot].unwrap().0 as int) < c.frontier@.len() as int);
    }
    assert forall|k: int| 0 <= k < post.vertices@.len() implies #[trigger] post.vertex_wf(k) by {
        let ov = (c.frontier@[k]).0 as int;
        assert(og.vertex_wf(ov));
        assert(c.state_id_map@[ov] == Some(VertexId(k as usize)));
        let ocs = og.vertices@[ov].children@;
        let ncs = post.vertices@[k].children@;
        assert(ncs == ocs.map_values(cmap));
        assert forall|i: int| 0 <= i < ncs.len() implies {
            let e = (#[trigger] ncs[i]).0;
            &&& e < post.arcs@.len()
            &&& post.arcs@[e as int].source.0 == k
        } by {
            assert(c.child_edge_marked(og, k, i));
            let oc = ocs[i].0 as int;
            assert(0 <= oc < og.arcs@.len());
            assert(c.arc_id_map@[oc] is Some);
            let nj = c.arc_id_map@[oc].unwrap().0 as int;
            assert(0 <= nj < c.marked_arcs@.len());
            assert(c.marked_arcs@[nj].0 as int == oc);
            assert(ncs[i] == cmap(ocs[i]));
            assert(ncs[i].0 as int == nj);
            assert(og.arcs@[oc].source.0 as int == ov);
            assert(post.arcs@[nj].source == c.state_id_map@[ov].unwrap());
            assert(post.arcs@[nj].source.0 == k);
        }
        let ops = og.vertices@[ov].parents@;
        let fps = ops.filter(cpred);
        let nps = post.vertices@[k].parents@;
        assert(nps == fps.map_values(cmap));
        assert forall|i: int| 0 <= i < nps.len() implies {
            let e = (#[trigger] nps[i]).0;
            &&& e < post.arcs@.len()
            &&& post.arcs@[e as int].target.0 == k
        } by {
            ops.lemma_filter_pred(cpred, i);
            lemma_filter_elem_of(ops, cpred, i);
            let op = fps[i];
            assert(cpred(op));
            let q = choose|q: int| 0 <= q < ops.len() && ops[q] == op;
            let oc = op.0 as int;
            assert(0 <= oc < og.arcs@.len());
            assert(og.arcs@[oc].target.0 as int == ov);
            let nj = c.arc_id_map@[oc].unwrap().0 as int;
            assert(0 <= nj < c.marked_arcs@.len());
            assert(c.marked_arcs@[nj].0 as int == oc);
            assert(nps[i] == cmap(op));
            assert(nps[i].0 as int == nj);
            assert(post.arcs@[nj].target == c.state_id_map@[ov].unwrap());
            assert(post.arcs@[nj].target.0 == k);
        }
    }
}

/// The breadth-first walk only extends the discovery orders it is given, and
/// keeps them valid.
pub proof fn lemma_bfs_loop_extends<T: Hash + Eq + Clone, S, A>(
    g: Graph<T, S, A>,
    vorder: Seq<int>,
    eorder: Seq<int>,
    p: int,
)
    requires
        0 <= p,
        vorder_ok(g, vorder),
        eorder_ok(g, eorder),
    ensures
        ({
            let r = bfs_loop(g, vorder, eorder, p);
            &&& vorder_ok(g, r.0)
            &&& eorder_ok(g, r.1)
            &&& r.0.len() >= vorder.len()
            &&& r.0.take(vorder.len() as int) == vorder
            &&& r.1.len() >= eorder.len()
            &&& r.1.take(eorder.len() as int) == eorder
        }),
    decreases g.vertices@.len() + 1 - p,
{
    broadcast use group_seq_properties;

    if p >= vorder.len() {
        assert(bfs_loop(g, vorder, eorder, p) == (vorder, eorder));
        assert(vorder.take(vorder.len() as int) == vorder);
        assert(eorder.take(eorder.len() as int) == eorder);
    } else {
        lemma_vorder_len(g, vorder);
        let step = bfs_scan_children(g, vorder, eorder, g.vertices@[vorder[p]].children@, 0);
        lemma_bfs_scan_children_ok(g, vorder, eorder, g.vertices@[vorder[p]].children@, 0);
        lemma_bfs_loop_extends(g, step.0, step.1, p + 1);
        let r = bfs_loop(g, vorder, eorder, p);
        assert(r == bfs_loop(g, step.0, step.1, p + 1));
        assert(r.0.take(vorder.len() as int) == r.0.take(step.0.len() as int).take(
            vorder.len() as int,
        ));
        assert(r.1.take(eorder.len() as int) == r.1.take(step.1.len() as int).take(
            eorder.len() as int,
        ));
    }
}

/// Two filters with predicates that agree on the elements of the sequence
/// produce the same result.
pub proof fn lemma_filter_agree<X>(s: Seq<X>, p1: spec_fn(X) -> bool, p2: spec_fn(X) -> bool)
    requires
        forall|i: int| 0 <= i < s.len() ==> (p1(#[trigger] s[i]) <==> p2(s[i])),
    ensures
        s.filter(p1) == s.filter(p2),
    decreases s.len(),
{
    reveal(Seq::filter);
    if s.len() > 0 {
        lemma_filter_agree(s.drop_last(), p1, p2);
        assert(p1(s.last()) <==> p2(s.last()));
    }
}

/// Vertex `v` lies within `n` child-edge steps of the root set.
pub open spec fn reach_n<T: Hash + Eq + Clone, S, A>(
    g: Graph<T, S, A>,
    roots: Seq<VertexId>,
    v: int,
    n: nat,
) -> bool
    decreases n,
{
    ||| (0 <= v < g.vertices@.len() && exists|i: int|
        0 <= i < roots.len() && (#[trigger] roots[i]).0 as int == v)
    ||| (n > 0 && exists|u: int, k: int|
        {
            &&& 0 <= u < g.vertices@.len()
            &&& 0 <= k < g.vertices@[u].children@.len()
            &&& g.arcs@[(#[trigger] g.vertices@[u].children@[k]).0 as int].target.0 as int == v
            &&& reach_n(g, roots, u, (n - 1) as nat)
        })
}

/// Vertex `v` is reachable from the root set by following child edges.
pub open spec fn reachable<T: Hash + Eq + Clone, S, A>(
    g: Graph<T, S, A>,
    roots: Seq<VertexId>,
    v: int,
) -> bool {
    exists|n: nat| reach_n(g, roots, v, n)
}

/// Edge `e` is live: it is a child edge of some reachable vertex.
pub open spec fn edge_live<T: Hash + Eq + Clone, S, A>(
    g: Graph<T, S, A>,
    roots: Seq<VertexId>,
    e: int,
) -> bool {
    exists|u: int, k: int|
        {
            &&& 0 <= u < g.vertices@.len()
            &&& 0 <= k < g.vertices@[u].children@.len()
            &&& (#[trigger] g.vertices@[u].children@[k]).0 as int == e
            &&& reachable(g, roots, u)
        }
}

/// Reachability is preserved by taking one child-edge step.
proof fn lemma_reach_step<T: Hash + Eq + Clone, S, A>(
    g: Graph<T, S, A>,
    roots: Seq<VertexId>,
    u: int,
    k: int,
)
    requires
        reachable(g, roots, u),
        0 <= u < g.vertices@.len(),
        0 <= k < g.vertices@[u].children@.len(),
    ensures
        reachable(g, roots, g.arcs@[g.vertices@[u].children@[k].0 as int].target.0 as int),
{
    let n = choose|n: nat| reach_n(g, roots, u, n);
    let v = g.arcs@[g.vertices@[u].children@[k].0 as int].target.0 as int;
    assert(reach_n(g, roots, v, n + 1));
}

/// Everything the root seeding puts in the order is a valid root, and every
/// valid root is seeded.
proof fn lemma_seed_roots_reachable<T: Hash + Eq + Clone, S, A>(
    g: Graph<T, S, A>,
    roots: Seq<VertexId>,
)
    ensures
        forall|k: int|
            0 <= k < seed_roots(g, roots).len() ==> reachable(
                g,
                roots,
                #[trigger] seed_roots(g, roots)[k],
            ),
        forall|i: int|
            0 <= i < roots.len() && (#[trigger] roots[i]).0 < g.vertices@.len()
                ==> seed_roots(g, roots).contains(roots[i].0 as int),
    decreases roots.len(),
{
    if roots.len() == 0 {
    } else {
        lemma_seed_roots_reachable(g, roots.drop_last());
        let pre = seed_roots(g, roots.drop_last());
        let cur = seed_roots(g, roots);
        let v = roots.last().0 as int;
        assert forall|k: int| 0 <= k < cur.len() implies reachable(g, roots, #[trigger] cur[k]) by {
            if k < pre.len() {
                assert(reachable(g, roots.drop_last(), pre[k]));
                let n = choose|n: nat| reach_n(g, roots.drop_last(), pre[k], n);
                lemma_reach_n_roots_grow(g, roots.drop_last(), roots, pre[k], n);
            } else {
                assert(cur[k] == v);
                assert(roots[roots.len() - 1].0 as int == v);
                assert(reach_n(g, roots, v, 0));
            }
        }
        assert forall|i: int|
            0 <= i < roots.len() && (#[trigger] roots[i]).0
                < g.vertices@.len() implies cur.contains(roots[i].0 as int) by {
            if i < roots.len() - 1 {
                assert(roots.drop_last()[i] == roots[i]);
                assert(pre.contains(roots[i].0 as int));
                let k = choose|k: int| 0 <= k < pre.len() && pre[k] == roots[i].0 as int;
                if v < g.vertices@.len() && !pre.contains(v) {
                    assert(cur[k] == pre[k]);
                } else {
                    assert(cur == pre);
                }
            } else {
                if !pre.contains(v) {
                    assert(cur.last() == v);
                } else {
                    let k = choose|k: int| 0 <= k < pre.len() && pre[k] == v;
                    assert(cur[k] == v);
                }
            }
        }
    }
}

/// Reachability only grows when the root list grows.
proof fn lemma_reach_n_roots_grow<T: Hash + Eq + Clone, S, A>(
    g: Graph<T, S, A>,
    roots1: Seq<VertexId>,
    roots2: Seq<VertexId>,
    v: int,
    n: nat,
)
    requires
        reach_n(g, roots1, v, n),
        roots2.len() >= roots1.len(),
        roots2.take(roots1.len() as int) == roots1,
    ensures
        reach_n(g, roots2, v, n),
    decreases n,
{
    if 0 <= v < g.vertices@.len() && exists|i: int|
        0 <= i < roots1.len() && (#[trigger] roots1[i]).0 as int == v {
        let i = choose|i: int| 0 <= i < roots1.len() && (#[trigger] roots1[i]).0 as int == v;
        assert(roots2[i] == roots1[i]);
    } else {
        let (u, k): (int, int) = choose|u: int, k: int|
            {
                &&& 0 <= u < g.vertices@.len()
                &&& 0 <= k < g.vertices@[u].children@.len()
                &&& g.arcs@[(#[trigger] g.vertices@[u].children@[k]).0 as int].target.0 as int
                    == v
                &&& reach_n(g, roots1, u, (n - 1) as nat)
            };
        lemma_reach_n_roots_grow(g, roots1, roots2, u, (n - 1) as nat);
        assert(reach_n(g, roots2, v, n));
    }
}

/// Every vertex the scan of one reachable vertex's children adds to the
/// order is reachable, and every edge it adds is live.
proof fn lemma_bfs_scan_reachable<T: Hash + Eq + Clone, S, A>(
    g: Graph<T, S, A>,
    roots: Seq<VertexId>,
    vorder: Seq<int>,
    eorder: Seq<int>,
    u: int,
    k: int,
)
    requires
        g.wf(),
        0 <= u < g.vertices@.len(),
        reachable(g, roots, u),
        forall|k2: int| 0 <= k2 < vorder.len() ==> reachable(g, roots, #[trigger] vorder[k2]),
        forall|k2: int| 0 <= k2 < eorder.len() ==> edge_live(g, roots, #[trigger] eorder[k2]),
    ensures
        ({
            let r = bfs_scan_children(g, vorder, eorder, g.vertices@[u].children@, k);
            &&& forall|k2: int| 0 <= k2 < r.0.len() ==> reachable(g, roots, #[trigger] r.0[k2])
            &&& forall|k2: int| 0 <= k2 < r.1.len() ==> edge_live(g, roots, #[trigger] r.1[k2])
        }),
    decreases g.vertices@[u].children@.len() - k,
{
    let cs = g.vertices@[u].children@;
    if k < 0 || k >= cs.len() {
    } else {
        let e = cs[k].0 as int;
        assert(g.vertex_wf(u));
        assert(0 <= e < g.arcs@.len());
        assert(g.arc_wf(e));
        let t = g.arcs@[e].target.0 as int;
        let vorder2 = if vorder.contains(t) {
            vorder
        } else {
            vorder.push(t)
        };
        let eorder2 = if eorder.contains(e) {
            eorder
        } else {
            eorder.push(e)
        };
        assert(reachable(g, roots, t)) by {
            lemma_reach_step(g, roots, u, k);
        }
        assert(edge_live(g, roots, e));
        assert forall|k2: int| 0 <= k2 < vorder2.len() implies reachable(
            g,
            roots,
            #[trigger] vorder2[k2],
        ) by {
            if k2 < vorder.len() {
                assert(vorder2[k2] == vorder[k2]);
            }
        }
        assert forall|k2: int| 0 <= k2 < eorder2.len() implies edge_live(
            g,
            roots,
            #[trigger] eorder2[k2],
        ) by {
            if k2 < eorder.len() {
                assert(eorder2[k2] == eorder[k2]);
            }
        }
        lemma_bfs_scan_reachable(g, roots, vorder2, eorder2, u, k + 1);
        assert(bfs_scan_children(g, vorder, eorder, cs, k) == bfs_scan_children(
            g,
            vorder2,
            eorder2,
            cs,
            k + 1,
        ));
    }
}

/// Every vertex the breadth-first walk records is reachable, and every edge
/// it records is live.
proof fn lemma_bfs_loop_reachable<T: Hash + Eq + Clone, S, A>(
    g: Graph<T, S, A>,
    roots: Seq<VertexId>,
    vorder: Seq<int>,
    eorder: Seq<int>,
    p: int,
)
    requires
        g.wf(),
        0 <= p,
        vorder_ok(g, vorder),
        eorder_ok(g, eorder),
        forall|k: int| 0 <= k < vorder.len() ==> reachable(g, roots, #[trigger] vorder[k]),
        forall|k: int| 0 <= k < eorder.len() ==> edge_live(g, roots, #[trigger] eorder[k]),
    ensures
        ({
            let r = bfs_loop(g, vorder, eorder, p);
            &&& forall|k: int| 0 <= k < r.0.len() ==> reachable(g, roots, #[trigger] r.0[k])
            &&& forall|k: int| 0 <= k < r.1.len() ==> edge_live(g, roots, #[trigger] r.1[k])
        }),
    decreases g.vertices@.len() + 1 - p,
{
    if p >= vorder.len() {
    } else {
        lemma_vorder_len(g, vorder);
        let u = vorder[p];
        let step = bfs_scan_children(g, vorder, eorder, g.vertices@[u].children@, 0);
        lemma_bfs_scan_children_ok(g, vorder, eorder, g.vertices@[u].children@, 0);
        lemma_bfs_scan_reachable(g, roots, vorder, eorder, u, 0);
        lemma_bfs_loop_reachable(g, roots, step.0, step.1, p + 1);
        assert(bfs_loop(g, vorder, eorder, p) == bfs_loop(g, step.0, step.1, p + 1));
    }
}

/// Reachability round-trip law, mark direction: a finished mark pass
/// discovers exactly the vertices reachable from the roots, and exactly the
/// live edges (the child edges of reachable vertices). Together with
/// [`pruned`], which keeps precisely the discovered items with their data and
/// renumbered topology, this pins down the effect of pruning: everything
/// reachable survives with consistent back-references, everything else is
/// gone.
pub proof fn lemma_marked_iff_reachable<T: Hash + Eq + Clone, S, A>(
    c: Collector,
    g: Graph<T, S, A>,
    roots: Seq<VertexId>,
)
    requires
        g.wf(),
        c.mark_complete(g, roots),
    ensures
        forall|v: int|
            0 <= v < g.vertices@.len() ==> ((#[trigger] c.state_id_map@[v]) is Some <==> reachable(
                g,
                roots,
                v,
            )),
        forall|e: int|
            0 <= e < g.arcs@.len() ==> ((#[trigger] c.arc_id_map@[e]) is Some <==> edge_live(
                g,
                roots,
                e,
            )),
{
    let vorder = c.vorder();
    let eorder = c.eorder();
    lemma_seed_roots_ok(g, roots);
    lemma_seed_roots_reachable(g, roots);
    lemma_bfs_loop_reachable(g, roots, seed_roots(g, roots), Seq::empty(), 0);
    lemma_bfs_loop_extends(g, seed_roots(g, roots), Seq::empty(), 0);
    // marked implies reachable / live
    assert forall|v: int|
        0 <= v < g.vertices@.len() && (#[trigger] c.state_id_map@[v]) is Some implies reachable(
        g,
        roots,
        v,
    ) by {
        lemma_contains_iff_marked(c, g, v);
        let k = choose|k: int| 0 <= k < vorder.len() && vorder[k] == v;
        assert(reachable(g, roots, vorder[k]));
    }
    assert forall|e: int|
        0 <= e < g.arcs@.len() && (#[trigger] c.arc_id_map@[e]) is Some implies edge_live(
        g,
        roots,
        e,
    ) by {
        lemma_arc_contains_iff_marked(c, g, e);
        let k = choose|k: int| 0 <= k < eorder.len() && eorder[k] == e;
        assert(edge_live(g, roots, eorder[k]));
    }
    // reachable implies marked
    assert forall|v: int|
        0 <= v < g.vertices@.len() && reachable(g, roots, v) implies (
    #[trigger] c.state_id_map@[v]) is Some by {
        let n = choose|n: nat| reach_n(g, roots, v, n);
        lemma_reach_n_marked(c, g, roots, v, n);
    }
    assert forall|e: int|
        0 <= e < g.arcs@.len() && edge_live(g, roots, e) implies (
    #[trigger] c.arc_id_map@[e]) is Some by {
        let (u, k): (int, int) = choose|u: int, k: int|
            {
                &&& 0 <= u < g.vertices@.len()
                &&& 0 <= k < g.vertices@[u].children@.len()
                &&& (#[trigger] g.vertices@[u].children@[k]).0 as int == e
                &&& reachable(g, roots, u)
            };
        let n = choose|n: nat| reach_n(g, roots, u, n);
        lemma_reach_n_marked(c, g, roots, u, n);
        let nk = c.state_id_map@[u].unwrap().0 as int;
        assert(c.frontier@[nk].0 as int == u);
        assert(c.child_edge_marked(g, nk, k));
    }
}

/// A vertex within `n` steps of the roots is discovered by a finished mark
/// pass.
proof fn lemma_reach_n_marked<T: Hash + Eq + Clone, S, A>(
    c: Collector,
    g: Graph<T, S, A>,
    roots: Seq<VertexId>,
    v: int,
    n: nat,
)
    requires
        g.wf(),
        c.mark_complete(g, roots),
        0 <= v < g.vertices@.len(),
        reach_n(g, roots, v, n),
    ensures
        c.state_id_map@[v] is Some,
    decreases n,
{
    lemma_seed_roots_reachable(g, roots);
    lemma_seed_roots_ok(g, roots);
    lemma_bfs_loop_extends(g, seed_roots(g, roots), Seq::empty(), 0);
    if exists|i: int| 0 <= i < roots.len() && (#[trigger] roots[i]).0 as int == v {
        let i = choose|i: int| 0 <= i < roots.len() && (#[trigger] roots[i]).0 as int == v;
        let seed = seed_roots(g, roots);
        assert(seed.contains(v));
        let k = choose|k: int| 0 <= k < seed.len() && seed[k] == v;
        assert(c.vorder().take(seed.len() as int) == seed);
        assert(c.vorder()[k] == v);
        lemma_contains_iff_marked(c, g, v);
    } else {
        let (u, k): (int, int) = choose|u: int, k: int|
            {
                &&& 0 <= u < g.vertices@.len()
                &&& 0 <= k < g.vertices@[u].children@.len()
                &&& g.arcs@[(#[trigger] g.vertices@[u].children@[k]).0 as int].target.0 as int
                    == v
                &&& reach_n(g, roots, u, (n - 1) as nat)
            };
        lemma_reach_n_marked(c, g, roots, u, (n - 1) as nat);
        let nk = c.state_id_map@[u].unwrap().0 as int;
        assert(c.frontier@[nk].0 as int == u);
        assert(c.child_edge_marked(g, nk, k));
    }
}

/// Renumbering-density law: the new ids assigned by a mark pass are exactly
/// the positions in the breadth-first discovery orders: the vertex discovered
/// `k`th is renumbered to `k`, densely from 0, and likewise for edges. The
/// orders themselves are a function of the graph and the root list alone, so
/// the renumbering is deterministic and reproducible.
pub proof fn lemma_renumbering_dense<T: Hash + Eq + Clone, S, A>(
    g: Graph<T, S, A>,
    roots: Seq<VertexId>,
)
    ensures
        ({
            let (vorder, eorder) = mark_orders(g, roots);
            &&& vorder_ok(g, vorder)
            &&& eorder_ok(g, eorder)
            &&& forall|k: int|
                0 <= k < vorder.len() ==> renumbered_vertex(vorder, #[trigger] vorder[k])
                    == VertexId(k as usize)
            &&& forall|j: int|
                0 <= j < eorder.len() ==> renumbered_edge(eorder, #[trigger] eorder[j]) == EdgeId(
                    j as usize,
                )
        }),
{
    lemma_seed_roots_ok(g, roots);
    lemma_bfs_loop_extends(g, seed_roots(g, roots), Seq::empty(), 0);
    let (vorder, eorder) = mark_orders(g, roots);
    assert forall|k: int|
        0 <= k < vorder.len() implies renumbered_vertex(vorder, #[trigger] vorder[k]) == VertexId(
        k as usize,
    ) by {
        assert(vorder.contains(vorder[k]));
        let k2 = vorder.index_of(vorder[k]);
        assert(0 <= k2 < vorder.len() && vorder[k2] == vorder[k]);
        assert(k2 == k);
    }
    assert forall|j: int|
        0 <= j < eorder.len() implies renumbered_edge(eorder, #[trigger] eorder[j]) == EdgeId(
        j as usize,
    ) by {
        assert(eorder.contains(eorder[j]));
        let j2 = eorder.index_of(eorder[j]);
        assert(0 <= j2 < eorder.len() && eorder[j2] == eorder[j]);
        assert(j2 == j);
    }
}

/// Parallel-edge law: distinct child edges of a discovered vertex both
/// survive a pruning pass and keep distinct ids, even when they connect the
/// same endpoints with equal payloads; the collector works on positions,
/// never on payload equality.
pub proof fn lemma_parallel_edges_survive<T: Hash + Eq + Clone, S, A>(
    c: Collector,
    g: Graph<T, S, A>,
    roots: Seq<VertexId>,
    u: int,
    k1: int,
    k2: int,
)
    requires
        g.wf(),
        c.mark_complete(g, roots),
        0 <= u < g.vertices@.len(),
        c.state_id_map@[u] is Some,
        0 <= k1 < g.vertices@[u].children@.len(),
        0 <= k2 < g.vertices@[u].children@.len(),
        g.vertices@[u].children@[k1] != g.vertices@[u].children@[k2],
    ensures
        c.arc_id_map@[g.vertices@[u].children@[k1].0 as int] is Some,
        c.arc_id_map@[g.vertices@[u].children@[k2].0 as int] is Some,
        c.arc_id_map@[g.vertices@[u].children@[k1].0 as int]
            != c.arc_id_map@[g.vertices@[u].children@[k2].0 as int],
{
    let nk = c.state_id_map@[u].unwrap().0 as int;
    assert(c.frontier@[nk].0 as int == u);
    assert(c.child_edge_marked(g, nk, k1));
    assert(c.child_edge_marked(g, nk, k2));
    let e1 = g.vertices@[u].children@[k1].0 as int;
    let e2 = g.vertices@[u].children@[k2].0 as int;
    assert(g.vertex_wf(u));
    if c.arc_id_map@[e1] == c.arc_id_map@[e2] {
        let nj = c.arc_id_map@[e1].unwrap().0 as int;
        assert(c.marked_arcs@[nj].0 as int == e1);
        assert(c.marked_arcs@[nj].0 as int == e2);
        assert(false);
    }
}

/// Reachability round-trip at the level of the discovery orders: whenever a
/// mark pass has completed (as every pruning entry point guarantees), the
/// vertex discovery order holds exactly the vertices reachable from the
/// roots, and the edge discovery order exactly the live edges. Together with
/// [`pruned`] this is the round trip: reachable components survive pruning
/// with their data and consistent, renumbered references, and nothing else
/// survives.
pub proof fn lemma_prune_retains_reachable<T: Hash + Eq + Clone, S, A>(
    c: Collector,
    g: Graph<T, S, A>,
    roots: Seq<VertexId>,
)
    requires
        g.wf(),
        c.mark_complete(g, roots),
    ensures
        forall|v: int|
            0 <= v < g.vertices@.len() ==> (#[trigger] mark_orders(g, roots).0.contains(v)
                <==> reachable(g, roots, v)),
        forall|e: int|
            0 <= e < g.arcs@.len() ==> (#[trigger] mark_orders(g, roots).1.contains(e)
                <==> edge_live(g, roots, e)),
{
    lemma_marked_iff_reachable(c, g, roots);
    assert forall|v: int| 0 <= v < g.vertices@.len() implies (#[trigger] mark_orders(
        g,
        roots,
    ).0.contains(v) <==> reachable(g, roots, v)) by {
        lemma_contains_iff_marked(c, g, v);
    }
    assert forall|e: int| 0 <= e < g.arcs@.len() implies (#[trigger] mark_orders(
        g,
        roots,
    ).1.contains(e) <==> edge_live(g, roots, e)) by {
        lemma_arc_contains_iff_marked(c, g, e);
    }
}

/// The children of vertex `u` have all been absorbed into the discovery
/// orders: every child target is in `vorder` and every child edge in
/// `eorder`.
pub open spec fn scanned_into<T: Hash + Eq + Clone, S, A>(
    g: Graph<T, S, A>,
    vorder: Seq<int>,
    eorder: Seq<int>,
    u: int,
) -> bool {
    forall|k: int|
        0 <= k < g.vertices@[u].children@.len() ==> {
            let e = (#[trigger] g.vertices@[u].children@[k]).0 as int;
            &&& vorder.contains(g.arcs@[e].target.0 as int)
            &&& eorder.contains(e)
        }
}

/// A prefix's elements stay present in the longer sequence.
proof fn lemma_prefix_contains(a: Seq<int>, r: Seq<int>)
    requires
        r.len() >= a.len(),
        r.take(a.len() as int) == a,
    ensures
        forall|x: int| a.contains(x) ==> #[trigger] r.contains(x),
{
    assert forall|x: int| a.contains(x) implies #[trigger] r.contains(x) by {
        let k = choose|k: int| 0 <= k < a.len() && a[k] == x;
        assert(r.take(a.len() as int)[k] == r[k]);
        assert(r[k] == x);
    }
}

/// Scanning one vertex's children absorbs all of them into the orders, and
/// never loses anything already there.
proof fn lemma_bfs_scan_absorbs<T: Hash + Eq + Clone, S, A>(
    g: Graph<T, S, A>,
    vorder: Seq<int>,
    eorder: Seq<int>,
    u: int,
    k: int,
)
    requires
        g.wf(),
        vorder_ok(g, vorder),
        eorder_ok(g, eorder),
        0 <= u < g.vertices@.len(),
        0 <= k,
    ensures
        ({
            let r = bfs_scan_children(g, vorder, eorder, g.vertices@[u].children@, k);
            forall|k2: int|
                k <= k2 < g.vertices@[u].children@.len() ==> {
                    let e = (#[trigger] g.vertices@[u].children@[k2]).0 as int;
                    &&& r.0.contains(g.arcs@[e].target.0 as int)
                    &&& r.1.contains(e)
                }
        }),
    decreases g.vertices@[u].children@.len() - k,
{
    let cs = g.vertices@[u].children@;
    if k < 0 || k >= cs.len() {
    } else {
        assert(g.vertex_wf(u));
        let e = cs[k].0 as int;
        assert(0 <= e < g.arcs@.len());
        assert(g.arc_wf(e));
        let t = g.arcs@[e].target.0 as int;
        let vorder2 = if vorder.contains(t) {
            vorder
        } else {
            vorder.push(t)
        };
        let eorder2 = if eorder.contains(e) {
            eorder
        } else {
            eorder.push(e)
        };
        assert(vorder2.contains(t)) by {
            if !vorder.contains(t) {
                assert(vorder2.last() == t);
            }
        }
        assert(eorder2.contains(e)) by {
            if !eorder.contains(e) {
                assert(eorder2.last() == e);
            }
        }
        lemma_bfs_scan_children_ok(g, vorder, eorder, cs, k);
        lemma_bfs_scan_children_ok(g, vorder2, eorder2, cs, k + 1);
        lemma_bfs_scan_absorbs(g, vorder2, eorder2, u, k + 1);
        let r = bfs_scan_children(g, vorder, eorder, cs, k);
        assert(r == bfs_scan_children(g, vorder2, eorder2, cs, k + 1));
        lemma_prefix_contains(vorder2, r.0);
        lemma_prefix_contains(eorder2, r.1);
    }
}

/// After the breadth-first walk finishes, every recorded vertex has had its
/// children absorbed into the orders.
proof fn lemma_bfs_loop_closed<T: Hash + Eq + Clone, S, A>(
    g: Graph<T, S, A>,
    vorder: Seq<int>,
    eorder: Seq<int>,
    p: int,
)
    requires
        g.wf(),
        0 <= p,
        vorder_ok(g, vorder),
        eorder_ok(g, eorder),
        forall|q: int| 0 <= q < p ==> scanned_into(g, vorder, eorder, #[trigger] vorder[q]),
    ensures
        ({
            let r = bfs_loop(g, vorder, eorder, p);
            forall|q: int| 0 <= q < r.0.len() ==> scanned_into(g, r.0, r.1, #[trigger] r.0[q])
        }),
    decreases g.vertices@.len() + 1 - p,
{
    if p >= vorder.len() {
    } else {
        lemma_vorder_len(g, vorder);
        let u = vorder[p];
        let cs = g.vertices@[u].children@;
        let step = bfs_scan_children(g, vorder, eorder, cs, 0);
        lemma_bfs_scan_children_ok(g, vorder, eorder, cs, 0);
        lemma_bfs_scan_absorbs(g, vorder, eorder, u, 0);
        lemma_prefix_contains(vorder, step.0);
        lemma_prefix_contains(eorder, step.1);
        assert forall|q: int|
            0 <= q < p + 1 implies scanned_into(g, step.0, step.1, #[trigger] step.0[q]) by {
            assert(step.0[q] == vorder[q]) by {
                assert(step.0.take(vorder.len() as int)[q] == step.0[q]);
            }
            if q < p {
                assert(scanned_into(g, vorder, eorder, vorder[q]));
            } else {
                assert(scanned_into(g, step.0, step.1, u));
            }
        }
        lemma_bfs_loop_closed(g, step.0, step.1, p + 1);
        assert(bfs_loop(g, vorder, eorder, p) == bfs_loop(g, step.0, step.1, p + 1));
    }
}

/// Every vertex within `n` steps of the roots is discovered by the
/// breadth-first walk.
proof fn lemma_reach_n_discovered<T: Hash + Eq + Clone, S, A>(
    g: Graph<T, S, A>,
    roots: Seq<VertexId>,
    v: int,
    n: nat,
)
    requires
        g.wf(),
        0 <= v < g.vertices@.len(),
        reach_n(g, roots, v, n),
    ensures
        mark_orders(g, roots).0.contains(v),
    decreases n,
{
    lemma_seed_roots_ok(g, roots);
    lemma_seed_roots_reachable(g, roots);
    lemma_bfs_loop_extends(g, seed_roots(g, roots), Seq::empty(), 0);
    lemma_bfs_loop_closed(g, seed_roots(g, roots), Seq::empty(), 0);
    let r = mark_orders(g, roots);
    if exists|i: int| 0 <= i < roots.len() && (#[trigger] roots[i]).0 as int == v {
        assert(seed_roots(g, roots).contains(v));
        lemma_prefix_contains(seed_roots(g, roots), r.0);
    } else {
        let (u, k): (int, int) = choose|u: int, k: int|
            {
                &&& 0 <= u < g.vertices@.len()
                &&& 0 <= k < g.vertices@[u].children@.len()
                &&& g.arcs@[(#[trigger] g.vertices@[u].children@[k]).0 as int].target.0 as int
                    == v
                &&& reach_n(g, roots, u, (n - 1) as nat)
            };
        lemma_reach_n_discovered(g, roots, u, (n - 1) as nat);
        let q = choose|q: int| 0 <= q < r.0.len() && r.0[q] == u;
        assert(scanned_into(g, r.0, r.1, u));
    }
}

/// Every live edge is discovered by the breadth-first walk.
proof fn lemma_live_discovered<T: Hash + Eq + Clone, S, A>(
    g: Graph<T, S, A>,
    roots: Seq<VertexId>,
    e: int,
)
    requires
        g.wf(),
        edge_live(g, roots, e),
    ensures
        mark_orders(g, roots).1.contains(e),
{
    lemma_seed_roots_ok(g, roots);
    lemma_bfs_loop_closed(g, seed_roots(g, roots), Seq::empty(), 0);
    let r = mark_orders(g, roots);
    let (u, k): (int, int) = choose|u: int, k: int|
        {
            &&& 0 <= u < g.vertices@.len()
            &&& 0 <= k < g.vertices@[u].children@.len()
            &&& (#[trigger] g.vertices@[u].children@[k]).0 as int == e
            &&& reachable(g, roots, u)
        };
    let n = choose|n: nat| reach_n(g, roots, u, n);
    lemma_reach_n_discovered(g, roots, u, n);
    let q = choose|q: int| 0 <= q < r.0.len() && r.0[q] == u;
    assert(scanned_into(g, r.0, r.1, u));
}

/// The new ids that `roots` get after pruning with them.
pub open spec fn renumbered_roots<T: Hash + Eq + Clone, S, A>(
    g: Graph<T, S, A>,
    roots: Seq<VertexId>,
) -> Seq<VertexId> {
    roots.map_values(|r: VertexId| renumbered_vertex(mark_orders(g, roots).0, r.0 as int))
}

/// A walk of `n` steps in the old graph transfers to a walk of `n` steps in
/// the pruned graph, between the renumbered endpoints.
proof fn lemma_reach_transfers<T: Hash + Eq + Clone, S, A>(
    g: Graph<T, S, A>,
    roots: Seq<VertexId>,
    g2: Graph<T, S, A>,
    v: int,
    n: nat,
)
    requires
        g.wf(),
        g2.wf(),
        g.vertices@.len() <= usize::MAX,
        g.arcs@.len() <= usize::MAX,
        pruned(g, roots, g2),
        forall|i: int| 0 <= i < roots.len() ==> (#[trigger] roots[i]).0 < g.vertices@.len(),
        0 <= v < g.vertices@.len(),
        reach_n(g, roots, v, n),
    ensures
        reach_n(g2, renumbered_roots(g, roots), renumbered_vertex(mark_orders(g, roots).0, v).0 as int, n),
    decreases n,
{
    let vorder = mark_orders(g, roots).0;
    let eorder = mark_orders(g, roots).1;
    let roots2 = renumbered_roots(g, roots);
    lemma_renumbering_dense(g, roots);
    lemma_seed_roots_ok(g, roots);
    lemma_bfs_loop_extends(g, seed_roots(g, roots), Seq::empty(), 0);
    lemma_vorder_len(g, vorder);
    lemma_reach_n_discovered(g, roots, v, n);
    let nv = renumbered_vertex(vorder, v).0 as int;
    assert(vorder.contains(v));
    assert(0 <= vorder.index_of(v) < vorder.len() && vorder[vorder.index_of(v)] == v);
    assert(nv == vorder.index_of(v));
    assert(vorder[nv] == v);
    assert(0 <= nv < g2.vertices@.len());
    if exists|i: int| 0 <= i < roots.len() && (#[trigger] roots[i]).0 as int == v {
        let i = choose|i: int| 0 <= i < roots.len() && (#[trigger] roots[i]).0 as int == v;
        assert(roots2[i] == renumbered_vertex(vorder, v));
        assert(reach_n(g2, roots2, nv, n));
    } else {
        let (u, k): (int, int) = choose|u: int, k: int|
            {
                &&& 0 <= u < g.vertices@.len()
                &&& 0 <= k < g.vertices@[u].children@.len()
                &&& g.arcs@[(#[trigger] g.vertices@[u].children@[k]).0 as int].target.0 as int
                    == v
                &&& reach_n(g, roots, u, (n - 1) as nat)
            };
        lemma_reach_transfers(g, roots, g2, u, (n - 1) as nat);
        lemma_reach_n_discovered(g, roots, u, (n - 1) as nat);
        let nu = renumbered_vertex(vorder, u).0 as int;
        assert(0 <= vorder.index_of(u) < vorder.len() && vorder[vorder.index_of(u)] == u);
        assert(nu == vorder.index_of(u));
        assert(vorder[nu] == u);
        assert(g2.vertices@[nu].children@ == g.vertices@[u].children@.map_values(
            |c: EdgeId| renumbered_edge(eorder, c.0 as int),
        ));
        let e = g.vertices@[u].children@[k].0 as int;
        assert(g.vertex_wf(u));
        assert(0 <= e < g.arcs@.len());
        assert(edge_live(g, roots, e)) by {
            assert(reach_n(g, roots, u, (n - 1) as nat));
            assert(reachable(g, roots, u));
        }
        lemma_live_discovered(g, roots, e);
        assert(eorder.contains(e));
        let je = eorder.index_of(e);
        assert(0 <= je < eorder.len() && eorder[je] == e);
        lemma_eorder_len(g, eorder);
        assert(renumbered_edge(eorder, e).0 as int == je);
        assert(g2.vertices@[nu].children@[k] == renumbered_edge(eorder, e));
        assert(g2.arcs@[je].target == renumbered_vertex(vorder, g.arcs@[e].target.0 as int));
        assert(g.arcs@[e].target.0 as int == v);
        assert(g2.arcs@[je].target.0 as int == nv);
        assert(reach_n(g2, roots2, nu, (n - 1) as nat));
        assert(0 <= k < g2.vertices@[nu].children@.len());
        assert(g2.arcs@[(g2.vertices@[nu].children@[k]).0 as int].target.0 as int == nv);
        assert(reach_n(g2, roots2, nv, n));
    }
}

/// Idempotence law: pruning is a no-op on graph shape when run again with
/// the same roots under their new ids. A second mark pass over the pruned
/// graph discovers every vertex and every edge, so a second prune keeps the
/// vertex and edge counts unchanged (it can only renumber, and the graph is
/// already in the canonical breadth-first order).
pub proof fn lemma_prune_idempotent<T: Hash + Eq + Clone, S, A>(
    g: Graph<T, S, A>,
    roots: Seq<VertexId>,
    g2: Graph<T, S, A>,
)
    requires
        g.wf(),
        g2.wf(),
        g.vertices@.len() <= usize::MAX,
        g.arcs@.len() <= usize::MAX,
        pruned(g, roots, g2),
        forall|i: int| 0 <= i < roots.len() ==> (#[trigger] roots[i]).0 < g.vertices@.len(),
    ensures
        mark_orders(g2, renumbered_roots(g, roots)).0.len() == g2.vertices@.len(),
        mark_orders(g2, renumbered_roots(g, roots)).1.len() == g2.arcs@.len(),
        forall|g3: Graph<T, S, A>|
            pruned(g2, renumbered_roots(g, roots), g3) ==> (#[trigger] g3.vertices)@.len()
                == g2.vertices@.len() && g3.arcs@.len() == g2.arcs@.len(),
{
    broadcast use group_seq_properties;
    broadcast use vstd::set_lib::group_set_lib_default;
    broadcast use vstd::set::group_set_axioms;

    let vorder = mark_orders(g, roots).0;
    let eorder = mark_orders(g, roots).1;
    let roots2 = renumbered_roots(g, roots);
    let vorder2 = mark_orders(g2, roots2).0;
    let eorder2 = mark_orders(g2, roots2).1;
    let n2 = g2.vertices@.len() as int;
    let m2 = g2.arcs@.len() as int;
    lemma_renumbering_dense(g, roots);
    lemma_renumbering_dense(g2, roots2);
    lemma_seed_roots_ok(g, roots);
    lemma_seed_roots_reachable(g, roots);
    lemma_bfs_loop_extends(g, seed_roots(g, roots), Seq::empty(), 0);
    lemma_vorder_len(g, vorder);
    lemma_bfs_loop_reachable(g, roots, seed_roots(g, roots), Seq::empty(), 0);
    assert(n2 <= g.vertices@.len());
    // every vertex of the pruned graph is reachable in it from the new roots
    assert forall|v2: int| 0 <= v2 < n2 implies reachable(g2, roots2, v2) by {
        let ov = vorder[v2];
        assert(reachable(g, roots, ov));
        let n = choose|n: nat| reach_n(g, roots, ov, n);
        lemma_reach_transfers(g, roots, g2, ov, n);
        assert(renumbered_vertex(vorder, vorder[v2]) == VertexId(v2 as usize));
        assert(renumbered_vertex(vorder, ov).0 as int == v2);
        assert(reach_n(g2, roots2, v2, n));
    }
    // hence the second walk records all of them
    assert forall|v2: int| 0 <= v2 < n2 implies vorder2.contains(v2) by {
        assert(reachable(g2, roots2, v2));
        assert(exists|n: nat| reach_n(g2, roots2, v2, n));
        let n = choose|n: nat| reach_n(g2, roots2, v2, n);
        lemma_reach_n_discovered(g2, roots2, v2, n);
    }
    assert(vorder2.len() == n2) by {
        lemma_vorder_len(g2, vorder2);
        assert(vorder2.no_duplicates());
        vorder2.unique_seq_to_set();
        vstd::set_lib::lemma_int_range(0, n2);
        assert(set_int_range(0, n2).subset_of(vorder2.to_set())) by {
            assert forall|x: int|
                set_int_range(0, n2).contains(x) implies vorder2.to_set().contains(x) by {
                assert(vorder2.contains(x));
            }
        }
        vstd::set_lib::lemma_len_subset(set_int_range(0, n2), vorder2.to_set());
    }
    // every edge of the pruned graph is live in it
    assert forall|j2: int| 0 <= j2 < m2 implies edge_live(g2, roots2, j2) by {
        let oe = eorder[j2];
        assert(eorder.contains(oe));
        assert(edge_live(g, roots, oe)) by {
            lemma_bfs_loop_reachable(g, roots, seed_roots(g, roots), Seq::empty(), 0);
        }
        let (u, k): (int, int) = choose|u: int, k: int|
            {
                &&& 0 <= u < g.vertices@.len()
                &&& 0 <= k < g.vertices@[u].children@.len()
                &&& (#[trigger] g.vertices@[u].children@[k]).0 as int == oe
                &&& reachable(g, roots, u)
            };
        let n = choose|n: nat| reach_n(g, roots, u, n);
        lemma_reach_transfers(g, roots, g2, u, n);
        lemma_reach_n_discovered(g, roots, u, n);
        let nu = renumbered_vertex(vorder, u).0 as int;
        assert(vorder[nu] == u);
        assert(0 <= nu < n2);
        assert(g2.vertices@[nu].children@ == g.vertices@[u].children@.map_values(
            |c: EdgeId| renumbered_edge(eorder, c.0 as int),
        ));
        assert(renumbered_edge(eorder, eorder[j2]) == EdgeId(j2 as usize));
        assert(g2.vertices@[nu].children@[k] == renumbered_edge(eorder, oe));
        assert(m2 <= g.arcs@.len()) by {
            lemma_eorder_len(g, eorder);
        }
        assert((j2 as usize) as int == j2);
        assert((g2.vertices@[nu].children@[k]).0 as int == j2);
        assert(reachable(g2, roots2, nu));
    }
    assert forall|j2: int| 0 <= j2 < m2 implies eorder2.contains(j2) by {
        lemma_live_discovered(g2, roots2, j2);
    }
    assert(eorder2.len() == m2) by {
        assert(eorder_ok(g2, eorder2)) by {
            lemma_seed_roots_ok(g2, roots2);
            lemma_bfs_loop_extends(g2, seed_roots(g2, roots2), Seq::empty(), 0);
        }
        let eset = eorder2.to_set();
        assert(eorder2.no_duplicates());
        eorder2.unique_seq_to_set();
        vstd::set_lib::lemma_int_range(0, m2);
        assert(eset.subset_of(set_int_range(0, m2))) by {
            assert forall|x: int| eset.contains(x) implies set_int_range(0, m2).contains(x) by {
                let k = choose|k: int| 0 <= k < eorder2.len() && eorder2[k] == x;
                assert(0 <= eorder2[k] < m2);
            }
        }
        vstd::set_lib::lemma_len_subset(eset, set_int_range(0, m2));
        assert(set_int_range(0, m2).subset_of(eset)) by {
            assert forall|x: int| set_int_range(0, m2).contains(x) implies eset.contains(x) by {
                assert(eorder2.contains(x));
            }
        }
        vstd::set_lib::lemma_len_subset(set_int_range(0, m2), eset);
    }
}

/// Garbage collector state for one pruning pass.
///
/// `frontier` is both the breadth-first queue (with `processed` as its head
/// position) and, once marking is done, the vertex discovery order;
/// `marked_arcs` is the edge discovery order. The id maps send old ids to
/// new ids for everything that was discovered.
pub struct Collector {
    /// Number of vertices discovered so far.
    pub marked_state_count: usize,
    /// Number of edges discovered so far.
    pub marked_arc_count: usize,
    /// Old vertex id -> new vertex id, for discovered vertices.
    pub state_id_map: Vec<Option<VertexId>>,
    /// Old edge id -> new edge id, for discovered edges.
    pub arc_id_map: Vec<Option<EdgeId>>,
    /// Discovered vertices, in discovery order.
    pub frontier: Vec<VertexId>,
    /// Number of frontier entries whose children have been scanned.
    pub processed: usize,
    /// Discovered edges, in discovery order.
    pub marked_arcs: Vec<EdgeId>,
}

impl Collector {
    /// The vertex discovery order recorded so far.
    pub open spec fn vorder(self) -> Seq<int> {
        self.frontier@.map_values(|v: VertexId| v.0 as int)
    }

    /// The edge discovery order recorded so far.
    pub open spec fn eorder(self) -> Seq<int> {
        self.marked_arcs@.map_values(|e: EdgeId| e.0 as int)
    }

    /// The id maps and the discovery orders describe each other exactly.
    pub open spec fn maps_linked<T: Hash + Eq + Clone, S, A>(self, g: Graph<T, S, A>) -> bool {
        &&& self.state_id_map@.len() == g.vertices@.len()
        &&& self.arc_id_map@.len() == g.arcs@.len()
        &&& self.marked_state_count == self.frontier@.len()
        &&& self.marked_arc_count == self.marked_arcs@.len()
        &&& self.processed <= self.frontier@.len()
        &&& forall|k: int|
            0 <= k < self.frontier@.len() ==> (#[trigger] self.frontier@[k]).0
                < g.vertices@.len()
        &&& forall|k: int|
            0 <= k < self.frontier@.len() ==> self.state_id_map@[(
            #[trigger] self.frontier@[k]).0 as int] == Some(VertexId(k as usize))
        &&& forall|v: int|
            0 <= v < g.vertices@.len() && (#[trigger] self.state_id_map@[v]) is Some ==> {
                let nk = self.state_id_map@[v].unwrap().0 as int;
                &&& 0 <= nk < self.frontier@.len()
                &&& self.frontier@[nk].0 as int == v
            }
        &&& forall|j: int|
            0 <= j < self.marked_arcs@.len() ==> (#[trigger] self.marked_arcs@[j]).0
                < g.arcs@.len()
        &&& forall|j: int|
            0 <= j < self.marked_arcs@.len() ==> self.arc_id_map@[(
            #[trigger] self.marked_arcs@[j]).0 as int] == Some(EdgeId(j as usize))
        &&& forall|e: int|
            0 <= e < g.arcs@.len() && (#[trigger] self.arc_id_map@[e]) is Some ==> {
                let nj = self.arc_id_map@[e].unwrap().0 as int;
                &&& 0 <= nj < self.marked_arcs@.len()
                &&& self.marked_arcs@[nj].0 as int == e
            }
    }

    /// Child `j` of the `k`th discovered vertex has been discovered, along
    /// with its target.
    pub open spec fn child_edge_marked<T: Hash + Eq + Clone, S, A>(
        self,
        g: Graph<T, S, A>,
        k: int,
        j: int,
    ) -> bool {
        let v = self.frontier@[k].0 as int;
        let e = g.vertices@[v].children@[j].0 as int;
        &&& self.arc_id_map@[e] is Some
        &&& self.state_id_map@[g.arcs@[e].target.0 as int] is Some
    }

    /// Every scanned vertex has all of its child edges and their targets
    /// discovered.
    pub open spec fn children_scanned<T: Hash + Eq + Clone, S, A>(
        self,
        g: Graph<T, S, A>,
        upto: int,
    ) -> bool {
        forall|k: int, j: int|
            0 <= k < upto && 0 <= j < g.vertices@[(#[trigger] self.frontier@[k]).0 as int].children@.len()
                ==> #[trigger] self.child_edge_marked(g, k, j)
    }

    /// Both endpoints of every discovered edge have been discovered.
    pub open spec fn arc_endpoints_marked<T: Hash + Eq + Clone, S, A>(
        self,
        g: Graph<T, S, A>,
    ) -> bool {
        forall|j: int|
            0 <= j < self.marked_arcs@.len() ==> {
                let e = (#[trigger] self.marked_arcs@[j]).0 as int;
                &&& self.state_id_map@[g.arcs@[e].source.0 as int] is Some
                &&& self.state_id_map@[g.arcs@[e].target.0 as int] is Some
            }
    }

    /// A finished mark pass: the whole discovery order has been scanned, and
    /// the recorded orders are exactly the breadth-first orders from `roots`.
    pub open spec fn mark_complete<T: Hash + Eq + Clone, S, A>(
        self,
        g: Graph<T, S, A>,
        roots: Seq<VertexId>,
    ) -> bool {
        &&& self.maps_linked(g)
        &&& self.processed == self.frontier@.len()
        &&& self.children_scanned(g, self.frontier@.len() as int)
        &&& self.arc_endpoints_marked(g)
        &&& (self.vorder(), self.eorder()) == mark_orders(g, roots)
    }

    /// Traverses the graph breadth first from `roots`, recording the
    /// discovery orders and the old-to-new id maps. The graph itself is not
    /// modified; `sweep` applies the renumbering.
    pub fn mark<T: Hash + Eq + Clone, S, A>(&mut self, graph: &Graph<T, S, A>, roots: &[VertexId])
        requires
            graph.wf(),
            old(self).maps_linked(*graph),
            old(self).frontier@.len() == 0,
            old(self).marked_arcs@.len() == 0,
            old(self).processed == 0,
            forall|v: int|
                0 <= v < graph.vertices@.len() ==> (#[trigger] old(self).state_id_map@[v]) is None,
            forall|e: int|
                0 <= e < graph.arcs@.len() ==> (#[trigger] old(self).arc_id_map@[e]) is None,
        ensures
            final(self).mark_complete(*graph, roots@),
    {
        let g = graph;
        // Seed the discovery order with the roots, first occurrence only.
        let mut ri: usize = 0;
        while ri < roots.len()
            invariant
                g.wf(),
                self.maps_linked(*g),
                self.processed == 0,
                self.marked_arcs@.len() == 0,
                ri <= roots@.len(),
                self.vorder() == seed_roots(*g, roots@.take(ri as int)),
            decreases roots@.len() - ri,
        {
            let ghost vor = self.vorder();
            let r = roots[ri];
            proof {
                assert(roots@.take(ri as int + 1).drop_last() =~= roots@.take(ri as int));
                assert(roots@.take(ri as int + 1).last() == roots@[ri as int]);
                if r.0 < g.vertices@.len() {
                    lemma_contains_iff_marked(*self, *g, r.0 as int);
                }
            }
            if r.as_usize() < g.vertex_count() {
                if self.state_id_map[r.as_usize()].is_none() {
                    let nv = VertexId(self.marked_state_count);
                    self.state_id_map.set(r.as_usize(), Some(nv));
                    self.frontier.push(r);
                    self.marked_state_count = self.frontier.len();
                    proof {
                        assert(self.vorder() =~= vor.push(r.0 as int));
                    }
                }
            }
            ri += 1;
            proof {
                assert(self.vorder() =~= seed_roots(*g, roots@.take(ri as int)));
            }
        }
        proof {
            assert(roots@.take(roots@.len() as int) =~= roots@);
            assert(self.vorder() == seed_roots(*g, roots@));
            assert(self.eorder() =~= Seq::<int>::empty());
            assert(bfs_loop(*g, self.vorder(), self.eorder(), 0) == mark_orders(*g, roots@));
            lemma_linked_orders_ok(*self, *g);
            lemma_vorder_len(*g, self.vorder());
        }
        // Scan the discovery order, appending newly found vertices and edges.
        while self.processed < self.frontier.len()
            invariant
                g.wf(),
                self.maps_linked(*g),
                self.children_scanned(*g, self.processed as int),
                self.arc_endpoints_marked(*g),
                self.frontier@.len() <= g.vertices@.len(),
                bfs_loop(*g, self.vorder(), self.eorder(), self.processed as int) == mark_orders(
                    *g,
                    roots@,
                ),
            decreases g.vertices@.len() + 1 - self.processed,
        {
            let ghost p0 = self.processed as int;
            let ghost vo0 = self.vorder();
            let ghost eo0 = self.eorder();
            let vid = self.frontier[self.processed];
            let cs = &g.get_vertex(vid).children;
            proof {
                assert(g.vertex_wf(vid.0 as int));
            }
            let mut j: usize = 0;
            while j < cs.len()
                invariant
                    g.wf(),
                    self.maps_linked(*g),
                    self.children_scanned(*g, p0),
                    self.arc_endpoints_marked(*g),
                    self.processed == p0,
                    p0 < self.frontier@.len(),
                    vid == self.frontier@[p0],
                    j <= cs@.len(),
                    cs@ == g.vertices@[vid.0 as int].children@,
                    forall|j2: int| 0 <= j2 < j ==> self.child_edge_marked(*g, p0, j2),
                    bfs_scan_children(*g, self.vorder(), self.eorder(), cs@, j as int)
                        == bfs_scan_children(*g, vo0, eo0, cs@, 0),
                decreases cs@.len() - j,
            {
                let ghost c0 = *self;
                let ghost vor = self.vorder();
                let ghost eor = self.eorder();
                let eid = cs[j];
                proof {
                    assert(g.vertex_wf(vid.0 as int));
                    assert(eid.0 < g.arcs@.len());
                    assert(g.arcs@[eid.0 as int].source.0 as int == vid.0 as int);
                    assert(g.arc_wf(eid.0 as int));
                    lemma_contains_iff_marked(*self, *g, g.arcs@[eid.0 as int].target.0 as int);
                    lemma_arc_contains_iff_marked(*self, *g, eid.0 as int);
                }
                let t = g.get_arc(eid).target;
                if self.state_id_map[t.as_usize()].is_none() {
                    let nv = VertexId(self.marked_state_count);
                    self.state_id_map.set(t.as_usize(), Some(nv));
                    self.frontier.push(t);
                    self.marked_state_count = self.frontier.len();
                }
                if self.arc_id_map[eid.as_usize()].is_none() {
                    let ne = EdgeId(self.marked_arc_count);
                    self.arc_id_map.set(eid.as_usize(), Some(ne));
                    self.marked_arcs.push(eid);
                    self.marked_arc_count = self.marked_arcs.len();
                }
                proof {
                    let tv = g.arcs@[eid.0 as int].target.0 as int;
                    if !vor.contains(tv) {
                        assert(self.vorder() =~= vor.push(tv));
                    } else {
                        assert(self.vorder() =~= vor);
                    }
                    if !eor.contains(eid.0 as int) {
                        assert(self.eorder() =~= eor.push(eid.0 as int));
                    } else {
                        assert(self.eorder() =~= eor);
                    }
                    assert(bfs_scan_children(*g, vor, eor, cs@, j as int) == bfs_scan_children(
                        *g,
                        self.vorder(),
                        self.eorder(),
                        cs@,
                        j as int + 1,
                    ));
                    // the maps only gained entries, so everything already
                    // discovered stays discovered
                    assert forall|k: int, j2: int|
                        0 <= k < p0 && 0 <= j2 < g.vertices@[(
                        #[trigger] self.frontier@[k]).0 as int].children@.len() implies #[trigger] self.child_edge_marked(
                        *g,
                        k,
                        j2,
                    ) by {
                        assert(self.frontier@[k] == c0.frontier@[k]);
                        assert(g.vertex_wf((c0.frontier@[k]).0 as int));
                        assert(c0.child_edge_marked(*g, k, j2));
                        let e2 = g.vertices@[(c0.frontier@[k]).0 as int].children@[j2].0 as int;
                        assert(0 <= e2 < g.arcs@.len());
                        assert(g.arc_wf(e2));
                        assert(self.arc_id_map@[e2] is Some);
                        assert(self.state_id_map@[g.arcs@[e2].target.0 as int] is Some);
                    }
                    assert forall|j2: int| 0 <= j2 <= j implies self.child_edge_marked(
                        *g,
                        p0,
                        j2,
                    ) by {
                        if j2 < j {
                            assert(c0.child_edge_marked(*g, p0, j2));
                            let e2 = g.vertices@[(c0.frontier@[p0]).0 as int].children@[j2].0
                                as int;
                            assert(0 <= e2 < g.arcs@.len());
                            assert(g.arc_wf(e2));
                            assert(self.arc_id_map@[e2] is Some);
                            assert(self.state_id_map@[g.arcs@[e2].target.0 as int] is Some);
                        } else {
                            assert(self.arc_id_map@[eid.0 as int] is Some);
                            assert(self.state_id_map@[tv] is Some);
                        }
                    }
                    assert forall|j2: int|
                        0 <= j2 < self.marked_arcs@.len() implies {
                            let e2 = (#[trigger] self.marked_arcs@[j2]).0 as int;
                            &&& self.state_id_map@[g.arcs@[e2].source.0 as int] is Some
                            &&& self.state_id_map@[g.arcs@[e2].target.0 as int] is Some
                        } by {
                        if j2 < c0.marked_arcs@.len() {
                            assert(self.marked_arcs@[j2] == c0.marked_arcs@[j2]);
                            let e2 = (c0.marked_arcs@[j2]).0 as int;
                            assert(0 <= e2 < g.arcs@.len());
                            assert(g.arc_wf(e2));
                            assert(c0.state_id_map@[g.arcs@[e2].source.0 as int] is Some);
                            assert(c0.state_id_map@[g.arcs@[e2].target.0 as int] is Some);
                        } else {
                            assert(self.marked_arcs@[j2] == eid);
                            assert(self.state_id_map@[vid.0 as int] is Some);
                            assert(self.state_id_map@[tv] is Some);
                        }
                    }
                    assert(self.arc_endpoints_marked(*g));
                    assert(self.children_scanned(*g, p0));
                }
                j += 1;
            }
            proof {
                assert(bfs_scan_children(*g, self.vorder(), self.eorder(), cs@, j as int) == (
                self.vorder(),
                self.eorder(),
                ));
                lemma_linked_orders_ok(*self, *g);
                assert(bfs_loop(*g, vo0, eo0, p0) == bfs_loop(
                    *g,
                    self.vorder(),
                    self.eorder(),
                    p0 + 1,
                ));
                lemma_vorder_len(*g, self.vorder());
                assert forall|k: int, j2: int|
                    0 <= k < p0 + 1 && 0 <= j2 < g.vertices@[(
                    #[trigger] self.frontier@[k]).0 as int].children@.len() implies #[trigger] self.child_edge_marked(
                    *g,
                    k,
                    j2,
                ) by {
                    if k == p0 {
                        assert(self.frontier@[k] == vid);
                    }
                }
                assert(self.children_scanned(*g, p0 + 1));
            }
            let ghost c1 = *self;
            self.processed += 1;
            proof {
                assert forall|k: int, j2: int|
                    0 <= k < self.processed as int && 0 <= j2 < g.vertices@[(
                    #[trigger] self.frontier@[k]).0 as int].children@.len() implies #[trigger] self.child_edge_marked(
                    *g,
                    k,
                    j2,
                ) by {
                    assert(c1.child_edge_marked(*g, k, j2));
                    assert(self.frontier@ == c1.frontier@);
                    assert(self.arc_id_map@ == c1.arc_id_map@);
                    assert(self.state_id_map@ == c1.state_id_map@);
                }
                assert(self.children_scanned(*g, self.processed as int));
            }
        }
        proof {
            assert(bfs_loop(*g, self.vorder(), self.eorder(), self.processed as int) == (
            self.vorder(),
            self.eorder(),
            ));
        }
    }

    /// Everything the sweep needs to know about a finished mark pass, stated
    /// over the maps alone.
    pub open spec fn mark_closed<T: Hash + Eq + Clone, S, A>(self, g: Graph<T, S, A>) -> bool {
        &&& self.maps_linked(g)
        &&& self.processed == self.frontier@.len()
        &&& self.children_scanned(g, self.frontier@.len() as int)
        &&& self.arc_endpoints_marked(g)
    }

    /// Relocates the discovered vertices and edges to their discovery
    /// positions, dropping everything undiscovered and rewriting every
    /// internal reference (children, parents, edge endpoints, and the state
    /// namespace) to the new ids.
    #[verifier::loop_isolation(false)]
    pub fn sweep<T: Hash + Eq + Clone, S, A>(&self, graph: &mut Graph<T, S, A>)
        requires
            old(graph).wf(),
            self.mark_closed(*old(graph)),
        ensures
            final(graph).wf(),
            final(graph).vertices@.len() == self.frontier@.len(),
            final(graph).states@.len() == self.frontier@.len(),
            final(graph).arcs@.len() == self.marked_arcs@.len(),
            forall|k: int|
                0 <= k < self.frontier@.len() ==> {
                    let ov = (#[trigger] self.frontier@[k]).0 as int;
                    &&& final(graph).states@[k] == old(graph).states@[ov]
                    &&& final(graph).vertices@[k].data == old(graph).vertices@[ov].data
                    &&& final(graph).vertices@[k].children@ == old(
                        graph,
                    ).vertices@[ov].children@.map_values(
                        |c: EdgeId| self.arc_id_map@[c.0 as int].unwrap(),
                    )
                    &&& final(graph).vertices@[k].parents@ == old(
                        graph,
                    ).vertices@[ov].parents@.filter(
                        |c: EdgeId| self.arc_id_map@[c.0 as int] is Some,
                    ).map_values(|c: EdgeId| self.arc_id_map@[c.0 as int].unwrap())
                },
            forall|j: int|
                0 <= j < self.marked_arcs@.len() ==> {
                    let oe = (#[trigger] self.marked_arcs@[j]).0 as int;
                    &&& final(graph).arcs@[j].data == old(graph).arcs@[oe].data
                    &&& final(graph).arcs@[j].source == self.state_id_map@[old(
                        graph,
                    ).arcs@[oe].source.0 as int].unwrap()
                    &&& final(graph).arcs@[j].target == self.state_id_map@[old(
                        graph,
                    ).arcs@[oe].target.0 as int].unwrap()
                },
    {
        let ghost og = *old(graph);
        let n = graph.vertices.len();
        let m = graph.arcs.len();
        let vcount = self.marked_state_count;
        let ecount = self.marked_arc_count;

        let mut old_vs: Vec<RawVertex<S>> = Vec::new();
        std::mem::swap(&mut old_vs, &mut graph.vertices);
        let mut old_states: Vec<T> = Vec::new();
        std::mem::swap(&mut old_states, &mut graph.states);
        let mut old_arcs: Vec<RawEdge<A>> = Vec::new();
        std::mem::swap(&mut old_arcs, &mut graph.arcs);

        // Turn each arena into a bank of take-once slots; slot `i` holds the
        // record with old index `n - 1 - i`.
        let mut vslots: Vec<Option<RawVertex<S>>> = Vec::with_capacity(n);
        let mut sslots: Vec<Option<T>> = Vec::with_capacity(n);
        while old_vs.len() > 0
            invariant
                old_vs@ == og.vertices@.take(n - vslots@.len()),
                vslots@.len() <= n,
                old_states@ == og.states@.take(n - sslots@.len()),
                sslots@.len() == vslots@.len(),
                forall|i: int|
                    0 <= i < vslots@.len() ==> #[trigger] vslots@[i] == Some(
                        og.vertices@[n - 1 - i],
                    ),
                forall|i: int|
                    0 <= i < sslots@.len() ==> #[trigger] sslots@[i] == Some(
                        og.states@[n - 1 - i],
                    ),
            decreases old_vs@.len(),
        {
            let x = old_vs.pop();
            vslots.push(x);
            let s = old_states.pop();
            sslots.push(s);
            proof {
                assert(old_vs@ =~= og.vertices@.take(n - vslots@.len()));
                assert(old_states@ =~= og.states@.take(n - sslots@.len()));
            }
        }
        let mut eslots: Vec<Option<RawEdge<A>>> = Vec::with_capacity(m);
        while old_arcs.len() > 0
            invariant
                old_arcs@ == og.arcs@.take(m - eslots@.len()),
                eslots@.len() <= m,
                forall|i: int|
                    0 <= i < eslots@.len() ==> #[trigger] eslots@[i] == Some(og.arcs@[m - 1 - i]),
            decreases old_arcs@.len(),
        {
            let x = old_arcs.pop();
            eslots.push(x);
            proof {
                assert(old_arcs@ =~= og.arcs@.take(m - eslots@.len()));
            }
        }

        // Gather the discovered vertices (and their states) in discovery
        // order, rewriting child lists and filtering parent lists as we go.
        let ghost cmap = |c: EdgeId| self.arc_id_map@[c.0 as int].unwrap();
        let ghost cpred = |c: EdgeId| self.arc_id_map@[c.0 as int] is Some;
        let mut new_vs: Vec<RawVertex<S>> = Vec::with_capacity(vcount);
        let mut new_states: Vec<T> = Vec::with_capacity(vcount);
        let mut k: usize = 0;
        while k < vcount
            invariant
                new_vs@.len() == k,
                new_states@.len() == k,
                k <= vcount,
                forall|i: int|
                    0 <= i < n ==> #[trigger] vslots@[n - 1 - i] == (
                    if self.state_id_map@[i] is Some && self.state_id_map@[i].unwrap().0 < k {
                        None
                    } else {
                        Some(og.vertices@[i])
                    }),
                forall|i: int|
                    0 <= i < n ==> #[trigger] sslots@[n - 1 - i] == (
                    if self.state_id_map@[i] is Some && self.state_id_map@[i].unwrap().0 < k {
                        None
                    } else {
                        Some(og.states@[i])
                    }),
                vslots@.len() == n,
                sslots@.len() == n,
                forall|k2: int|
                    0 <= k2 < k ==> {
                        let ov = (#[trigger] self.frontier@[k2]).0 as int;
                        &&& new_states@[k2] == og.states@[ov]
                        &&& new_vs@[k2].data == og.vertices@[ov].data
                        &&& new_vs@[k2].children@ == og.vertices@[ov].children@.map_values(cmap)
                        &&& new_vs@[k2].parents@ == og.vertices@[ov].parents@.filter(
                            cpred,
                        ).map_values(cmap)
                    },
            decreases vcount - k,
        {
            let ovid = self.frontier[k];
            let ov = ovid.as_usize();
            proof {
                assert(self.state_id_map@[ov as int] == Some(VertexId(k as usize)));
                assert(vslots@[n - 1 - ov] == Some(og.vertices@[ov as int]));
                assert(sslots@[n - 1 - ov] == Some(og.states@[ov as int]));
            }
            let slot = n - 1 - ov;
            let xo = vslots[slot].take();
            let mut x = xo.unwrap();
            let so = sslots[slot].take();
            let s = so.unwrap();
            let ghost ox = og.vertices@[ov as int];
            // rewrite the child list to the new edge ids
            let mut j2: usize = 0;
            while j2 < x.children.len()
                invariant
                    x.children@.len() == ox.children@.len(),
                    x.parents@ == ox.parents@,
                    x.data == ox.data,
                    j2 <= x.children@.len(),
                    forall|i: int| 0 <= i < j2 ==> #[trigger] x.children@[i] == cmap(ox.children@[i]),
                    forall|i: int|
                        j2 <= i < x.children@.len() ==> #[trigger] x.children@[i]
                            == ox.children@[i],
                decreases x.children@.len() - j2,
            {
                let c = x.children[j2];
                proof {
                    assert(og.vertex_wf(ov as int));
                    assert(self.child_edge_marked(og, k as int, j2 as int));
                    assert(c.0 < m);
                    assert(self.arc_id_map@[c.0 as int] is Some);
                }
                let nc = self.arc_id_map[c.as_usize()].unwrap();
                x.children.set(j2, nc);
                j2 += 1;
            }
            proof {
                assert(x.children@ =~= ox.children@.map_values(cmap));
            }
            // keep only surviving parent edges, renumbered, in order
            let mut store: usize = 0;
            let mut scan: usize = 0;
            while scan < x.parents.len()
                invariant
                    x.parents@.len() == ox.parents@.len(),
                    x.children@ == ox.children@.map_values(cmap),
                    x.data == ox.data,
                    store <= scan <= x.parents@.len(),
                    x.parents@.take(store as int) == ox.parents@.take(scan as int).filter(
                        cpred,
                    ).map_values(cmap),
                    forall|i: int|
                        scan <= i < x.parents@.len() ==> #[trigger] x.parents@[i]
                            == ox.parents@[i],
                decreases x.parents@.len() - scan,
            {
                let p = x.parents[scan];
                proof {
                    assert(og.vertex_wf(ov as int));
                    assert(p == ox.parents@[scan as int]);
                    assert(p.0 < m);
                    assert(ox.parents@.take(scan as int + 1).drop_last() =~= ox.parents@.take(
                        scan as int,
                    ));
                    assert(ox.parents@.take(scan as int + 1).last() == p);
                }
                let ghost taken_pre = x.parents@.take(store as int);
                match self.arc_id_map[p.as_usize()] {
                    Some(np) => {
                        x.parents.set(store, np);
                        store += 1;
                        proof {
                            reveal(Seq::filter);
                            assert(x.parents@.take(store as int) =~= taken_pre.push(np));
                            assert(ox.parents@.take(scan as int + 1).filter(cpred)
                                == ox.parents@.take(scan as int).filter(cpred).push(p));
                            assert(ox.parents@.take(scan as int + 1).filter(cpred).map_values(
                                cmap,
                            ) =~= ox.parents@.take(scan as int).filter(cpred).map_values(
                                cmap,
                            ).push(cmap(p)));
                        }
                    },
                    None => {
                        proof {
                            reveal(Seq::filter);
                            assert(ox.parents@.take(scan as int + 1).filter(cpred)
                                == ox.parents@.take(scan as int).filter(cpred));
                        }
                    },
                }
                scan += 1;
            }
            x.parents.truncate(store);
            proof {
                assert(ox.parents@.take(ox.parents@.len() as int) =~= ox.parents@);
                assert(x.parents@ == ox.parents@.filter(cpred).map_values(cmap));
            }
            new_vs.push(x);
            new_states.push(s);
            k += 1;
        }

        // Gather the discovered edges in discovery order, renumbering their
        // endpoints.
        let mut new_arcs: Vec<RawEdge<A>> = Vec::with_capacity(ecount);
        let mut jj: usize = 0;
        while jj < ecount
            invariant
                new_arcs@.len() == jj,
                jj <= ecount,
                forall|i: int|
                    0 <= i < m ==> #[trigger] eslots@[m - 1 - i] == (
                    if self.arc_id_map@[i] is Some && self.arc_id_map@[i].unwrap().0 < jj {
                        None
                    } else {
                        Some(og.arcs@[i])
                    }),
                eslots@.len() == m,
                forall|j2: int|
                    0 <= j2 < jj ==> {
                        let oe = (#[trigger] self.marked_arcs@[j2]).0 as int;
                        &&& new_arcs@[j2].data == og.arcs@[oe].data
                        &&& new_arcs@[j2].source == self.state_id_map@[og.arcs@[oe].source.0 as int].unwrap()
                        &&& new_arcs@[j2].target == self.state_id_map@[og.arcs@[oe].target.0 as int].unwrap()
                    },
            decreases ecount - jj,
        {
            let oeid = self.marked_arcs[jj];
            let oe = oeid.as_usize();
            proof {
                assert(self.arc_id_map@[oe as int] == Some(EdgeId(jj as usize)));
                assert(eslots@[m - 1 - oe] == Some(og.arcs@[oe as int]));
                assert(og.arc_wf(oe as int));
                assert(self.state_id_map@[og.arcs@[oe as int].source.0 as int] is Some);
                assert(self.state_id_map@[og.arcs@[oe as int].target.0 as int] is Some);
            }
            let xo = eslots[m - 1 - oe].take();
            let x = xo.unwrap();
            let ns = self.state_id_map[x.source.as_usize()].unwrap();
            let nt = self.state_id_map[x.target.as_usize()].unwrap();
            new_arcs.push(RawEdge { data: x.data, source: ns, target: nt });
            jj += 1;
        }

        graph.vertices = new_vs;
        graph.states = new_states;
        graph.arcs = new_arcs;

        proof {
            lemma_sweep_result_wf(*self, og, *graph);
        }
    }

    /// With linked maps, a set map entry equals the renumbering function of
    /// the corresponding discovery order.
    pub proof fn lemma_maps_are_renumbering<T: Hash + Eq + Clone, S, A>(self, g: Graph<T, S, A>)
        requires
            self.maps_linked(g),
        ensures
            forall|v: int|
                0 <= v < g.vertices@.len() && (#[trigger] self.state_id_map@[v]) is Some
                    ==> self.state_id_map@[v].unwrap() == renumbered_vertex(self.vorder(), v),
            forall|e: int|
                0 <= e < g.arcs@.len() && (#[trigger] self.arc_id_map@[e]) is Some
                    ==> self.arc_id_map@[e].unwrap() == renumbered_edge(self.eorder(), e),
    {
        assert forall|v: int|
            0 <= v < g.vertices@.len() && (#[trigger] self.state_id_map@[v])
                is Some implies self.state_id_map@[v].unwrap() == renumbered_vertex(
            self.vorder(),
            v,
        ) by {
            let nk = self.state_id_map@[v].unwrap().0 as int;
            assert(self.frontier@[nk].0 as int == v);
            assert(self.vorder()[nk] == v);
            assert(self.vorder().contains(v));
            let k2 = self.vorder().index_of(v);
            assert(0 <= k2 < self.vorder().len() && self.vorder()[k2] == v);
            assert(self.state_id_map@[(self.frontier@[k2]).0 as int] == Some(
                VertexId(k2 as usize),
            ));
            assert(k2 == nk);
        }
        assert forall|e: int|
            0 <= e < g.arcs@.len() && (#[trigger] self.arc_id_map@[e])
                is Some implies self.arc_id_map@[e].unwrap() == renumbered_edge(
            self.eorder(),
            e,
        ) by {
            let nj = self.arc_id_map@[e].unwrap().0 as int;
            assert(self.marked_arcs@[nj].0 as int == e);
            assert(self.eorder()[nj] == e);
            assert(self.eorder().contains(e));
            let j2 = self.eorder().index_of(e);
            assert(0 <= j2 < self.eorder().len() && self.eorder()[j2] == e);
            assert(self.arc_id_map@[(self.marked_arcs@[j2]).0 as int] == Some(
                EdgeId(j2 as usize),
            ));
            assert(j2 == nj);
        }
    }

    /// Runs mark-and-compact garbage collection on a graph. Graph components
    /// not reachable from the vertices named by `roots` are dropped, and the
    /// survivors are renumbered in breadth-first discovery order, exactly as
    /// [`pruned`] states.
    ///
    /// This is the entry point for this module; callers working with states
    /// rather than raw ids should prefer `Graph::retain_reachable_from` or
    /// the `retain_reachable` method of `MutNode`.
    pub fn retain_reachable<T: Hash + Eq + Clone, S, A>(
        graph: &mut Graph<T, S, A>,
        roots: &[VertexId],
    )
        requires
            old(graph).wf(),
        ensures
            final(graph).wf(),
            pruned(*old(graph), roots@, *final(graph)),
            exists|c: Collector| #[trigger] c.mark_complete(*old(graph), roots@),
    {
        let ghost og = *old(graph);
        let mut c = Collector::new(graph);
        c.mark(graph, roots);
        c.sweep(graph);
        proof {
            assert(c.mark_complete(og, roots@));
            let orders = mark_orders(og, roots@);
            assert(c.vorder() == orders.0 && c.eorder() == orders.1);
            c.lemma_maps_are_renumbering(og);
            let cmap = |e: EdgeId| c.arc_id_map@[e.0 as int].unwrap();
            let cpred = |e: EdgeId| c.arc_id_map@[e.0 as int] is Some;
            let rmap = |e: EdgeId| renumbered_edge(c.eorder(), e.0 as int);
            let rpred = |e: EdgeId| c.eorder().contains(e.0 as int);
            assert forall|k: int| 0 <= k < c.frontier@.len() implies {
                let ov = (#[trigger] c.frontier@[k]).0 as int;
                &&& graph.vertices@[k].children@ == og.vertices@[ov].children@.map_values(rmap)
                &&& graph.vertices@[k].parents@ == og.vertices@[ov].parents@.filter(
                    rpred,
                ).map_values(rmap)
            } by {
                let ov = (c.frontier@[k]).0 as int;
                assert(og.vertex_wf(ov));
                let ocs = og.vertices@[ov].children@;
                assert forall|i: int| 0 <= i < ocs.len() implies #[trigger] ocs.map_values(cmap)[i]
                    == ocs.map_values(rmap)[i] by {
                    assert(c.child_edge_marked(og, k, i));
                }
                assert(ocs.map_values(cmap) =~= ocs.map_values(rmap));
                let ops = og.vertices@[ov].parents@;
                assert forall|i: int| 0 <= i < ops.len() implies (cpred(#[trigger] ops[i]) <==> rpred(
                    ops[i],
                )) by {
                    lemma_arc_contains_iff_marked(c, og, ops[i].0 as int);
                }
                lemma_filter_agree(ops, cpred, rpred);
                let fps = ops.filter(cpred);
                assert forall|i: int| 0 <= i < fps.len() implies #[trigger] fps.map_values(cmap)[i]
                    == fps.map_values(rmap)[i] by {
                    ops.lemma_filter_pred(cpred, i);
                    assert(cpred(fps[i]));
                }
                assert(fps.map_values(cmap) =~= fps.map_values(rmap));
            }
            assert forall|j: int| 0 <= j < c.marked_arcs@.len() implies {
                let oe = (#[trigger] c.marked_arcs@[j]).0 as int;
                &&& graph.arcs@[j].source == renumbered_vertex(
                    c.vorder(),
                    og.arcs@[oe].source.0 as int,
                )
                &&& graph.arcs@[j].target == renumbered_vertex(
                    c.vorder(),
                    og.arcs@[oe].target.0 as int,
                )
            } by {
                let oe = (c.marked_arcs@[j]).0 as int;
                assert(og.arc_wf(oe));
                assert(c.state_id_map@[og.arcs@[oe].source.0 as int] is Some);
                assert(c.state_id_map@[og.arcs@[oe].target.0 as int] is Some);
            }
        }
    }

    /// Creates a collector with empty initial state, sized for `graph`.
    pub fn new<T: Hash + Eq + Clone, S, A>(graph: &Graph<T, S, A>) -> (r: Collector)
        ensures
            r.maps_linked(*graph),
            r.marked_state_count == 0,
            r.marked_arc_count == 0,
            r.frontier@.len() == 0,
            r.marked_arcs@.len() == 0,
            r.processed == 0,
            forall|v: int|
                0 <= v < graph.vertices@.len() ==> (#[trigger] r.state_id_map@[v]) is None,
            forall|e: int| 0 <= e < graph.arcs@.len() ==> (#[trigger] r.arc_id_map@[e]) is None,
    {
        let n = graph.vertex_count();
        let m = graph.edge_count();
        let mut state_id_map: Vec<Option<VertexId>> = Vec::with_capacity(n);
        let mut i: usize = 0;
        while i < n
            invariant
                state_id_map@.len() == i,
                i <= n,
                forall|v: int| 0 <= v < i ==> (#[trigger] state_id_map@[v]) is None,
            decreases n - i,
        {
            state_id_map.push(None);
            i += 1;
        }
        let mut arc_id_map: Vec<Option<EdgeId>> = Vec::with_capacity(m);
        let mut j: usize = 0;
        while j < m
            invariant
                arc_id_map@.len() == j,
                j <= m,
                forall|e: int| 0 <= e < j ==> (#[trigger] arc_id_map@[e]) is None,
            decreases m - j,
        {
            arc_id_map.push(None);
            j += 1;
        }
        Collector {
            marked_state_count: 0,
            marked_arc_count: 0,
            state_id_map,
            arc_id_map,
            frontier: Vec::new(),
            processed: 0,
            marked_arcs: Vec::new(),
        }
    }
}

} // verus!
