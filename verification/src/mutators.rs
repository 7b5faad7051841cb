//! Read-write navigation cursors.
//!
//! The cursors in this module hold an exclusive borrow of the graph, so only
//! one chain of them can be alive at a time. They support the same traversal
//! as the read-only cursors of [`crate::nav`], plus mutation of vertex and
//! edge data and insertion of new edges.
//!
//! In contracts, `mut_ref_current` of a cursor's graph reference is the graph
//! as the cursor sees it now, and `mut_ref_future` is the graph as it will be
//! when the cursor's borrow ends.

use vstd::prelude::*;

use std::hash::Hash;

use crate::base::{EdgeId, RawEdge, RawVertex, VertexId};
use crate::nav::{ChildList, ChildListIter, Edge, Node, ParentList, ParentListIter};
use crate::Graph;

verus! {

/// Holds when `post` equals `pre` except possibly in the data payload of the
/// vertex at index `v`.
pub open spec fn same_but_vertex_data<T: Hash + Eq + Clone, S, A>(
    pre: Graph<T, S, A>,
    post: Graph<T, S, A>,
    v: int,
) -> bool {
    &&& post.states@ == pre.states@
    &&& post.arcs@ == pre.arcs@
    &&& post.vertices@.len() == pre.vertices@.len()
    &&& forall|u: int|
        0 <= u < pre.vertices@.len() && u != v ==> #[trigger] post.vertices@[u]
            == pre.vertices@[u]
    &&& 0 <= v < pre.vertices@.len()
    &&& post.vertices@[v].children@ == pre.vertices@[v].children@
    &&& post.vertices@[v].parents@ == pre.vertices@[v].parents@
}

/// Holds when `post` equals `pre` except possibly in the data payload of the
/// edge at index `e`.
pub open spec fn same_but_edge_data<T: Hash + Eq + Clone, S, A>(
    pre: Graph<T, S, A>,
    post: Graph<T, S, A>,
    e: int,
) -> bool {
    &&& post.states@ == pre.states@
    &&& post.vertices@ == pre.vertices@
    &&& post.arcs@.len() == pre.arcs@.len()
    &&& forall|d: int|
        0 <= d < pre.arcs@.len() && d != e ==> #[trigger] post.arcs@[d] == pre.arcs@[d]
    &&& 0 <= e < pre.arcs@.len()
    &&& post.arcs@[e].source == pre.arcs@[e].source
    &&& post.arcs@[e].target == pre.arcs@[e].target
}

/// A graph whose shape equals that of a well-formed graph is well formed:
/// the invariant does not mention data payloads.
pub proof fn lemma_wf_shape<T: Hash + Eq + Clone, S, A>(g1: Graph<T, S, A>, g2: Graph<T, S, A>)
    requires
        g1.wf(),
        g2.states@ == g1.states@,
        g2.vertices@.len() == g1.vertices@.len(),
        forall|v: int|
            0 <= v < g1.vertices@.len() ==> (#[trigger] g2.vertices@[v]).children@
                == g1.vertices@[v].children@ && g2.vertices@[v].parents@
                == g1.vertices@[v].parents@,
        g2.arcs@.len() == g1.arcs@.len(),
        forall|e: int|
            0 <= e < g1.arcs@.len() ==> (#[trigger] g2.arcs@[e]).source == g1.arcs@[e].source
                && g2.arcs@[e].target == g1.arcs@[e].target,
    ensures
        g2.wf(),
{
    assert forall|e: int| 0 <= e < g2.arcs@.len() implies #[trigger] g2.arc_wf(e) by {
        assert(g1.arc_wf(e));
    }
    assert forall|v: int| 0 <= v < g2.vertices@.len() implies #[trigger] g2.vertex_wf(v) by {
        assert(g1.vertex_wf(v));
        assert(g2.vertices@[v].children@ == g1.vertices@[v].children@);
        assert(g2.vertices@[v].parents@ == g1.vertices@[v].parents@);
        assert forall|k: int| 0 <= k < g2.vertices@[v].children@.len() implies {
            let e = (#[trigger] g2.vertices@[v].children@[k]).0;
            &&& e < g2.arcs@.len()
            &&& g2.arcs@[e as int].source.0 == v
        } by {
            let e = g1.vertices@[v].children@[k].0;
            assert(e < g1.arcs@.len() && g1.arcs@[e as int].source.0 == v);
        }
        assert forall|k: int| 0 <= k < g2.vertices@[v].parents@.len() implies {
            let e = (#[trigger] g2.vertices@[v].parents@[k]).0;
            &&& e < g2.arcs@.len()
            &&& g2.arcs@[e as int].target.0 == v
        } by {
            let e = g1.vertices@[v].parents@[k].0;
            assert(e < g1.arcs@.len() && g1.arcs@[e as int].target.0 == v);
        }
    }
}

/// Mutable handle to a graph vertex ("node handle").
///
/// This zipper-like type enables traversal of a graph along the vertex's
/// incoming and outgoing edges, mutation of vertex data, and insertion of
/// edges through the mutable child/parent lists derived from it.
pub struct MutNode<'a, T: Hash + Eq + Clone, S, A> {
    pub graph: &'a mut Graph<T, S, A>,
    pub id: VertexId,
}

impl<'a, T: Hash + Eq + Clone, S, A> MutNode<'a, T, S, A> {
    /// The graph as seen through this cursor.
    pub open spec fn cur(self) -> Graph<T, S, A> {
        mut_ref_current(self.graph)
    }

    /// The cursor addresses a vertex that exists in a well-formed graph.
    pub open spec fn wf(self) -> bool {
        &&& self.cur().wf()
        &&& self.id.0 < self.cur().vertices@.len()
    }

    /// The vertex record this cursor addresses.
    pub open spec fn vertex(self) -> RawVertex<S> {
        self.cur().vertices@[self.id.0 as int]
    }

    pub(crate) fn new(graph: &'a mut Graph<T, S, A>, id: VertexId) -> (r: Self)
        ensures
            r.cur() == *old(graph),
            mut_ref_future(r.graph) == *final(graph),
            r.id == id,
    {
        MutNode { graph, id }
    }

    /// Returns an ID that identifies this vertex uniquely within its graph.
    /// The ID may change when the graph is pruned.
    pub fn get_id(&self) -> (r: usize)
        ensures
            r == self.id.0,
    {
        self.id.as_usize()
    }

    /// Returns the canonical state that addresses this node.
    pub fn get_label(&self) -> (r: &T)
        requires
            self.wf(),
        ensures
            *r == self.cur().states@[self.id.0 as int],
    {
        &self.graph.states[self.id.0]
    }

    /// Returns the data at this vertex.
    pub fn get_data<'s>(&'s self) -> (r: &'s S)
        requires
            self.wf(),
        ensures
            *r == self.vertex().data,
    {
        &self.graph.get_vertex(self.id).data
    }

    /// Returns the data at this vertex, mutably. Until the returned borrow
    /// ends, the graph seen by this cursor already shows the final value that
    /// will be written through it.
    pub fn get_data_mut<'s>(&'s mut self) -> (r: &'s mut S)
        requires
            old(self).wf(),
        ensures
            *r == old(self).vertex().data,
            final(self).id == old(self).id,
            mut_ref_future(final(self).graph) == mut_ref_future(old(self).graph),
            same_but_vertex_data(old(self).cur(), final(self).cur(), old(self).id.0 as int),
            final(self).cur().vertices@[old(self).id.0 as int].data == *final(r),
    {
        let id = self.id.0;
        let v = &mut self.graph.vertices[id];
        &mut v.data
    }

    /// Returns true iff this vertex has no outgoing edges.
    pub fn is_leaf(&self) -> (r: bool)
        requires
            self.wf(),
        ensures
            r == (self.vertex().children@.len() == 0),
    {
        self.graph.get_vertex(self.id).children.len() == 0
    }

    /// Returns true iff this vertex has no incoming edges.
    pub fn is_root(&self) -> (r: bool)
        requires
            self.wf(),
        ensures
            r == (self.vertex().parents@.len() == 0),
    {
        self.graph.get_vertex(self.id).parents.len() == 0
    }

    /// Returns a read-only list of outgoing edges, scoped to a borrow of
    /// `self`.
    pub fn get_child_list<'s>(&'s self) -> (r: ChildList<'s, T, S, A>)
        ensures
            *r.graph == self.cur(),
            r.id == self.id,
    {
        ChildList { graph: &*self.graph, id: self.id }
    }

    /// Returns a mutable list of outgoing edges, scoped to a borrow of
    /// `self`.
    pub fn get_child_list_mut<'s>(&'s mut self) -> (r: MutChildList<'s, T, S, A>)
        ensures
            r.cur() == old(self).cur(),
            r.id == old(self).id,
            final(self).id == old(self).id,
            final(self).cur() == mut_ref_future(r.graph),
            mut_ref_future(final(self).graph) == mut_ref_future(old(self).graph),
    {
        MutChildList { graph: &mut *self.graph, id: self.id }
    }

    /// Returns a mutable list of outgoing edges; `self` is consumed.
    pub fn to_child_list(self) -> (r: MutChildList<'a, T, S, A>)
        ensures
            r.cur() == self.cur(),
            mut_ref_future(r.graph) == mut_ref_future(self.graph),
            r.id == self.id,
    {
        MutChildList { graph: self.graph, id: self.id }
    }

    /// Returns a read-only list of incoming edges, scoped to a borrow of
    /// `self`.
    pub fn get_parent_list<'s>(&'s self) -> (r: ParentList<'s, T, S, A>)
        ensures
            *r.graph == self.cur(),
            r.id == self.id,
    {
        ParentList { graph: &*self.graph, id: self.id }
    }

    /// Returns a mutable list of incoming edges, scoped to a borrow of
    /// `self`.
    pub fn get_parent_list_mut<'s>(&'s mut self) -> (r: MutParentList<'s, T, S, A>)
        ensures
            r.cur() == old(self).cur(),
            r.id == old(self).id,
            final(self).id == old(self).id,
            final(self).cur() == mut_ref_future(r.graph),
            mut_ref_future(final(self).graph) == mut_ref_future(old(self).graph),
    {
        MutParentList { graph: &mut *self.graph, id: self.id }
    }

    /// Returns a mutable list of incoming edges; `self` is consumed.
    pub fn to_parent_list(self) -> (r: MutParentList<'a, T, S, A>)
        ensures
            r.cur() == self.cur(),
            mut_ref_future(r.graph) == mut_ref_future(self.graph),
            r.id == self.id,
    {
        MutParentList { graph: self.graph, id: self.id }
    }

    /// Returns a read-only node for the same vertex. `self` is consumed and
    /// the graph can no longer be mutated through it, so the borrow resolves
    /// to the current graph.
    pub fn to_node(self) -> (r: Node<'a, T, S, A>)
        ensures
            *r.graph == self.cur(),
            mut_ref_future(self.graph) == self.cur(),
            r.id == self.id,
    {
        Node { graph: &*self.graph, id: self.id }
    }

    /// Returns a read-only node for the same vertex, scoped to a borrow of
    /// `self`.
    pub fn get_node<'s>(&'s self) -> (r: Node<'s, T, S, A>)
        ensures
            *r.graph == self.cur(),
            r.id == self.id,
    {
        Node { graph: &*self.graph, id: self.id }
    }

    /// Prunes the underlying graph by removing the components that are not
    /// reachable from this node, renumbering the survivors in breadth-first
    /// discovery order. The cursor then addresses the same vertex under its
    /// new id, which is always `VertexId(0)`.
    pub fn retain_reachable(&mut self)
        requires
            old(self).wf(),
        ensures
            final(self).id == VertexId(0usize),
            mut_ref_future(final(self).graph) == mut_ref_future(old(self).graph),
            crate::mark_compact::pruned(
                old(self).cur(),
                seq![old(self).id],
                final(self).cur(),
            ),
            final(self).wf(),
    {
        let ghost g0 = old(self).cur();
        let mut rv: Vec<VertexId> = Vec::new();
        rv.push(self.id);
        proof {
            assert(rv@ =~= seq![old(self).id]);
        }
        crate::mark_compact::Collector::retain_reachable(self.graph, rv.as_slice());
        self.id = VertexId(0);
        proof {
            let seed = crate::mark_compact::seed_roots(g0, rv@);
            assert(rv@.drop_last() =~= Seq::<VertexId>::empty());
            assert(crate::mark_compact::seed_roots(g0, rv@.drop_last()) =~= Seq::<int>::empty());
            assert(seed =~= Seq::<int>::empty().push(old(self).id.0 as int));
            crate::mark_compact::lemma_seed_roots_ok(g0, rv@);
            crate::mark_compact::lemma_bfs_loop_extends(g0, seed, Seq::<int>::empty(), 0);
            assert(crate::mark_compact::mark_orders(g0, rv@).0.len() >= 1);
        }
    }
}

/// A traversible, mutable list of a vertex's outgoing edges.
pub struct MutChildList<'a, T: Hash + Eq + Clone, S, A> {
    pub graph: &'a mut Graph<T, S, A>,
    pub id: VertexId,
}

impl<'a, T: Hash + Eq + Clone, S, A> MutChildList<'a, T, S, A> {
    /// The graph as seen through this cursor.
    pub open spec fn cur(self) -> Graph<T, S, A> {
        mut_ref_current(self.graph)
    }

    /// The cursor addresses a vertex that exists in a well-formed graph.
    pub open spec fn wf(self) -> bool {
        &&& self.cur().wf()
        &&& self.id.0 < self.cur().vertices@.len()
    }

    /// The child edge ids of the addressed vertex.
    pub open spec fn edge_ids(self) -> Seq<EdgeId> {
        self.cur().vertices@[self.id.0 as int].children@
    }

    /// Returns the number of outgoing edges.
    pub fn len(&self) -> (r: usize)
        requires
            self.wf(),
        ensures
            r == self.edge_ids().len(),
    {
        self.graph.get_vertex(self.id).children.len()
    }

    /// Returns true iff there are no outgoing edges.
    pub fn is_empty(&self) -> (r: bool)
        requires
            self.wf(),
        ensures
            r == (self.edge_ids().len() == 0),
    {
        self.len() == 0
    }

    /// Returns a read-only handle for the `i`th edge, scoped to a borrow of
    /// `self`.
    pub fn get_edge<'s>(&'s self, i: usize) -> (r: Edge<'s, T, S, A>)
        requires
            self.wf(),
            i < self.edge_ids().len(),
        ensures
            *r.graph == self.cur(),
            r.id == self.edge_ids()[i as int],
            r.wf(),
    {
        proof {
            assert(self.cur().vertex_wf(self.id.0 as int));
        }
        Edge { graph: &*self.graph, id: self.graph.get_vertex(self.id).children[i] }
    }

    /// Returns a mutable handle for the `i`th edge, scoped to a borrow of
    /// `self`.
    pub fn get_edge_mut<'s>(&'s mut self, i: usize) -> (r: MutEdge<'s, T, S, A>)
        requires
            old(self).wf(),
            i < old(self).edge_ids().len(),
        ensures
            r.cur() == old(self).cur(),
            r.id == old(self).edge_ids()[i as int],
            r.wf(),
            final(self).id == old(self).id,
            final(self).cur() == mut_ref_future(r.graph),
            mut_ref_future(final(self).graph) == mut_ref_future(old(self).graph),
    {
        proof {
            assert(self.cur().vertex_wf(self.id.0 as int));
        }
        let id = self.graph.get_vertex(self.id).children[i];
        MutEdge { graph: &mut *self.graph, id }
    }

    /// Returns a mutable handle for the `i`th edge; `self` is consumed.
    pub fn to_edge(self, i: usize) -> (r: MutEdge<'a, T, S, A>)
        requires
            self.wf(),
            i < self.edge_ids().len(),
        ensures
            r.cur() == self.cur(),
            mut_ref_future(r.graph) == mut_ref_future(self.graph),
            r.id == self.edge_ids()[i as int],
            r.wf(),
    {
        proof {
            assert(self.cur().vertex_wf(self.id.0 as int));
        }
        let id = self.graph.get_vertex(self.id).children[i];
        MutEdge { graph: self.graph, id }
    }

    /// Returns a read-only node for the vertex these edges originate from,
    /// scoped to a borrow of `self`.
    pub fn get_source_node<'s>(&'s self) -> (r: Node<'s, T, S, A>)
        ensures
            *r.graph == self.cur(),
            r.id == self.id,
    {
        Node { graph: &*self.graph, id: self.id }
    }

    /// Returns a mutable node for the vertex these edges originate from,
    /// scoped to a borrow of `self`.
    pub fn get_source_node_mut<'s>(&'s mut self) -> (r: MutNode<'s, T, S, A>)
        ensures
            r.cur() == old(self).cur(),
            r.id == old(self).id,
            final(self).id == old(self).id,
            final(self).cur() == mut_ref_future(r.graph),
            mut_ref_future(final(self).graph) == mut_ref_future(old(self).graph),
    {
        MutNode { graph: &mut *self.graph, id: self.id }
    }

    /// Returns a mutable node for the vertex these edges originate from;
    /// `self` is consumed.
    pub fn to_source_node(self) -> (r: MutNode<'a, T, S, A>)
        ensures
            r.cur() == self.cur(),
            mut_ref_future(r.graph) == mut_ref_future(self.graph),
            r.id == self.id,
    {
        MutNode { graph: self.graph, id: self.id }
    }

    /// Returns an iterator over child edges, scoped to a borrow of `self`.
    pub fn iter<'s>(&'s self) -> (r: ChildListIter<'s, T, S, A>)
        ensures
            *r.graph == self.cur(),
            r.id == self.id,
            r.i == 0,
    {
        ChildListIter { graph: &*self.graph, id: self.id, i: 0 }
    }

    /// Adds an edge from this list's vertex to the vertex labeled by
    /// `child_label`. If no such vertex exists, it is created with the data
    /// returned by `f`, which is invoked only in that case. Returns a mutable
    /// handle for the new edge, scoped to a borrow of `self`.
    pub fn add_child<'s, F: FnOnce() -> S>(
        &'s mut self,
        child_label: T,
        f: F,
        edge_data: A,
    ) -> (r: MutEdge<'s, T, S, A>)
        requires
            vstd::laws_eq::obeys_concrete_eq::<T>(),
            old(self).wf(),
            call_requires(f, ()),
        ensures
            r.wf(),
            r.id.0 == old(self).cur().arcs@.len(),
            final(self).id == old(self).id,
            final(self).cur() == mut_ref_future(r.graph),
            mut_ref_future(final(self).graph) == mut_ref_future(old(self).graph),
            child_added(
                old(self).cur(),
                r.cur(),
                old(self).id.0 as int,
                child_label,
                edge_data,
                f,
            ),
    {
        let eid = add_child_edge(self.graph, self.id, child_label, f, edge_data);
        MutEdge { graph: &mut *self.graph, id: eid }
    }

    /// As `add_child`, but `self` is consumed and the returned handle lives
    /// as long as `self` did.
    pub fn to_add_child<F: FnOnce() -> S>(self, child_label: T, f: F, edge_data: A) -> (r: MutEdge<
        'a,
        T,
        S,
        A,
    >)
        requires
            vstd::laws_eq::obeys_concrete_eq::<T>(),
            self.wf(),
            call_requires(f, ()),
        ensures
            r.wf(),
            r.id.0 == self.cur().arcs@.len(),
            mut_ref_future(r.graph) == mut_ref_future(self.graph),
            child_added(self.cur(), r.cur(), self.id.0 as int, child_label, edge_data, f),
    {
        let eid = add_child_edge(self.graph, self.id, child_label, f, edge_data);
        MutEdge { graph: self.graph, id: eid }
    }
}

/// Holds when `post` is `pre` with one new edge appended from vertex `src` to
/// the vertex carrying `child_label` (created with data from `f` if absent).
pub open spec fn child_added<T: Hash + Eq + Clone, S, A, F: FnOnce() -> S>(
    pre: Graph<T, S, A>,
    post: Graph<T, S, A>,
    src: int,
    child_label: T,
    edge_data: A,
    f: F,
) -> bool {
    exists|mid: Graph<T, S, A>, did: int|
        {
            &&& #[trigger] pre.resolved_vertex(mid, child_label, did)
            &&& (!pre.has_state(child_label) ==> call_ensures(
                f,
                (),
                mid.vertices@[did].data,
            ))
            &&& post.states@ == mid.states@
            &&& post.arcs@ == mid.arcs@.push(
                RawEdge {
                    data: edge_data,
                    source: VertexId(src as usize),
                    target: VertexId(did as usize),
                },
            )
            &&& crate::edge_attached(
                mid.vertices@,
                post.vertices@,
                src,
                did,
                EdgeId(pre.arcs@.len() as usize),
            )
        }
}

/// Shared implementation of `add_child`/`to_add_child`: resolves the child
/// label and appends the new edge.
fn add_child_edge<T: Hash + Eq + Clone, S, A, F: FnOnce() -> S>(
    graph: &mut Graph<T, S, A>,
    src: VertexId,
    child_label: T,
    f: F,
    edge_data: A,
) -> (r: EdgeId)
    requires
        vstd::laws_eq::obeys_concrete_eq::<T>(),
        old(graph).wf(),
        src.0 < old(graph).vertices@.len(),
        call_requires(f, ()),
    ensures
        final(graph).wf(),
        r.0 == old(graph).arcs@.len(),
        r.0 < final(graph).arcs@.len(),
        child_added(*old(graph), *final(graph), src.0 as int, child_label, edge_data, f),
{
    let target_id = graph.resolve_state_with(child_label, |_t: &T| -> (out: S)
        requires
            call_requires(f, ()),
        ensures
            call_ensures(f, (), out),
        { f() });
    let ghost mid = *graph;
    let eid = graph.add_raw_edge(edge_data, src, VertexId(target_id));
    proof {
        assert(child_added(
            *old(graph),
            *final(graph),
            src.0 as int,
            child_label,
            edge_data,
            f,
        )) by {
            assert(old(graph).resolved_vertex(mid, child_label, target_id as int));
        }
    }
    eid
}

/// A traversible, mutable list of a vertex's incoming edges.
pub struct MutParentList<'a, T: Hash + Eq + Clone, S, A> {
    pub graph: &'a mut Graph<T, S, A>,
    pub id: VertexId,
}

impl<'a, T: Hash + Eq + Clone, S, A> MutParentList<'a, T, S, A> {
    /// The graph as seen through this cursor.
    pub open spec fn cur(self) -> Graph<T, S, A> {
        mut_ref_current(self.graph)
    }

    /// The cursor addresses a vertex that exists in a well-formed graph.
    pub open spec fn wf(self) -> bool {
        &&& self.cur().wf()
        &&& self.id.0 < self.cur().vertices@.len()
    }

    /// The parent edge ids of the addressed vertex.
    pub open spec fn edge_ids(self) -> Seq<EdgeId> {
        self.cur().vertices@[self.id.0 as int].parents@
    }

    /// Returns the number of incoming edges.
    pub fn len(&self) -> (r: usize)
        requires
            self.wf(),
        ensures
            r == self.edge_ids().len(),
    {
        self.graph.get_vertex(self.id).parents.len()
    }

    /// Returns true iff there are no incoming edges.
    pub fn is_empty(&self) -> (r: bool)
        requires
            self.wf(),
        ensures
            r == (self.edge_ids().len() == 0),
    {
        self.len() == 0
    }

    /// Returns a read-only node for the vertex these edges terminate on,
    /// scoped to a borrow of `self`.
    pub fn get_target_node<'s>(&'s self) -> (r: Node<'s, T, S, A>)
        ensures
            *r.graph == self.cur(),
            r.id == self.id,
    {
        Node { graph: &*self.graph, id: self.id }
    }

    /// Returns a mutable node for the vertex these edges terminate on, scoped
    /// to a borrow of `self`.
    pub fn get_target_node_mut<'s>(&'s mut self) -> (r: MutNode<'s, T, S, A>)
        ensures
            r.cur() == old(self).cur(),
            r.id == old(self).id,
            final(self).id == old(self).id,
            final(self).cur() == mut_ref_future(r.graph),
            mut_ref_future(final(self).graph) == mut_ref_future(old(self).graph),
    {
        MutNode { graph: &mut *self.graph, id: self.id }
    }

    /// Returns a mutable node for the vertex these edges terminate on; `self`
    /// is consumed.
    pub fn to_target_node(self) -> (r: MutNode<'a, T, S, A>)
        ensures
            r.cur() == self.cur(),
            mut_ref_future(r.graph) == mut_ref_future(self.graph),
            r.id == self.id,
    {
        MutNode { graph: self.graph, id: self.id }
    }

    /// Returns a read-only handle for the `i`th edge, scoped to a borrow of
    /// `self`.
    pub fn get_edge<'s>(&'s self, i: usize) -> (r: Edge<'s, T, S, A>)
        requires
            self.wf(),
            i < self.edge_ids().len(),
        ensures
            *r.graph == self.cur(),
            r.id == self.edge_ids()[i as int],
            r.wf(),
    {
        proof {
            assert(self.cur().vertex_wf(self.id.0 as int));
        }
        Edge { graph: &*self.graph, id: self.graph.get_vertex(self.id).parents[i] }
    }

    /// Returns a mutable handle for the `i`th edge, scoped to a borrow of
    /// `self`.
    pub fn get_edge_mut<'s>(&'s mut self, i: usize) -> (r: MutEdge<'s, T, S, A>)
        requires
            old(self).wf(),
            i < old(self).edge_ids().len(),
        ensures
            r.cur() == old(self).cur(),
            r.id == old(self).edge_ids()[i as int],
            r.wf(),
            final(self).id == old(self).id,
            final(self).cur() == mut_ref_future(r.graph),
            mut_ref_future(final(self).graph) == mut_ref_future(old(self).graph),
    {
        proof {
            assert(self.cur().vertex_wf(self.id.0 as int));
        }
        let id = self.graph.get_vertex(self.id).parents[i];
        MutEdge { graph: &mut *self.graph, id }
    }

    /// Returns a mutable handle for the `i`th edge; `self` is consumed.
    pub fn to_edge(self, i: usize) -> (r: MutEdge<'a, T, S, A>)
        requires
            self.wf(),
            i < self.edge_ids().len(),
        ensures
            r.cur() == self.cur(),
            mut_ref_future(r.graph) == mut_ref_future(self.graph),
            r.id == self.edge_ids()[i as int],
            r.wf(),
    {
        proof {
            assert(self.cur().vertex_wf(self.id.0 as int));
        }
        let id = self.graph.get_vertex(self.id).parents[i];
        MutEdge { graph: self.graph, id }
    }

    /// Returns an iterator over parent edges, scoped to a borrow of `self`.
    pub fn iter<'s>(&'s self) -> (r: ParentListIter<'s, T, S, A>)
        ensures
            *r.graph == self.cur(),
            r.id == self.id,
            r.i == 0,
    {
        ParentListIter { graph: &*self.graph, id: self.id, i: 0 }
    }

    /// Adds an edge to this list's vertex from the vertex labeled by
    /// `parent_label`. If no such vertex exists, it is created with the data
    /// returned by `f`, which is invoked only in that case. Returns a mutable
    /// handle for the new edge, scoped to a borrow of `self`.
    pub fn add_parent<'s, F: FnOnce() -> S>(
        &'s mut self,
        parent_label: T,
        f: F,
        edge_data: A,
    ) -> (r: MutEdge<'s, T, S, A>)
        requires
            vstd::laws_eq::obeys_concrete_eq::<T>(),
            old(self).wf(),
            call_requires(f, ()),
        ensures
            r.wf(),
            r.id.0 == old(self).cur().arcs@.len(),
            final(self).id == old(self).id,
            final(self).cur() == mut_ref_future(r.graph),
            mut_ref_future(final(self).graph) == mut_ref_future(old(self).graph),
            parent_added(
                old(self).cur(),
                r.cur(),
                old(self).id.0 as int,
                parent_label,
                edge_data,
                f,
            ),
    {
        let eid = add_parent_edge(self.graph, self.id, parent_label, f, edge_data);
        MutEdge { graph: &mut *self.graph, id: eid }
    }

    /// As `add_parent`, but `self` is consumed and the returned handle lives
    /// as long as `self` did.
    pub fn to_add_parent<F: FnOnce() -> S>(self, parent_label: T, f: F, edge_data: A) -> (r:
        MutEdge<'a, T, S, A>)
        requires
            vstd::laws_eq::obeys_concrete_eq::<T>(),
            self.wf(),
            call_requires(f, ()),
        ensures
            r.wf(),
            r.id.0 == self.cur().arcs@.len(),
            mut_ref_future(r.graph) == mut_ref_future(self.graph),
            parent_added(self.cur(), r.cur(), self.id.0 as int, parent_label, edge_data, f),
    {
        let eid = add_parent_edge(self.graph, self.id, parent_label, f, edge_data);
        MutEdge { graph: self.graph, id: eid }
    }
}

/// Holds when `post` is `pre` with one new edge appended to vertex `tgt` from
/// the vertex carrying `parent_label` (created with data from `f` if absent).
pub open spec fn parent_added<T: Hash + Eq + Clone, S, A, F: FnOnce() -> S>(
    pre: Graph<T, S, A>,
    post: Graph<T, S, A>,
    tgt: int,
    parent_label: T,
    edge_data: A,
    f: F,
) -> bool {
    exists|mid: Graph<T, S, A>, sid: int|
        {
            &&& #[trigger] pre.resolved_vertex(mid, parent_label, sid)
            &&& (!pre.has_state(parent_label) ==> call_ensures(f, (), mid.vertices@[sid].data))
            &&& post.states@ == mid.states@
            &&& post.arcs@ == mid.arcs@.push(
                RawEdge {
                    data: edge_data,
                    source: VertexId(sid as usize),
                    target: VertexId(tgt as usize),
                },
            )
            &&& crate::edge_attached(
                mid.vertices@,
                post.vertices@,
                sid,
                tgt,
                EdgeId(pre.arcs@.len() as usize),
            )
        }
}

/// Shared implementation of `add_parent`/`to_add_parent`: resolves the parent
/// label and appends the new edge.
fn add_parent_edge<T: Hash + Eq + Clone, S, A, F: FnOnce() -> S>(
    graph: &mut Graph<T, S, A>,
    tgt: VertexId,
    parent_label: T,
    f: F,
    edge_data: A,
) -> (r: EdgeId)
    requires
        vstd::laws_eq::obeys_concrete_eq::<T>(),
        old(graph).wf(),
        tgt.0 < old(graph).vertices@.len(),
        call_requires(f, ()),
    ensures
        final(graph).wf(),
        r.0 == old(graph).arcs@.len(),
        r.0 < final(graph).arcs@.len(),
        parent_added(*old(graph), *final(graph), tgt.0 as int, parent_label, edge_data, f),
{
    let source_id = graph.resolve_state_with(parent_label, |_t: &T| -> (out: S)
        requires
            call_requires(f, ()),
        ensures
            call_ensures(f, (), out),
        { f() });
    let ghost mid = *graph;
    let eid = graph.add_raw_edge(edge_data, VertexId(source_id), tgt);
    proof {
        assert(parent_added(
            *old(graph),
            *final(graph),
            tgt.0 as int,
            parent_label,
            edge_data,
            f,
        )) by {
            assert(old(graph).resolved_vertex(mid, parent_label, source_id as int));
        }
    }
    eid
}

/// Mutable handle to a graph edge ("edge handle").
pub struct MutEdge<'a, T: Hash + Eq + Clone, S, A> {
    pub graph: &'a mut Graph<T, S, A>,
    pub id: EdgeId,
}

impl<'a, T: Hash + Eq + Clone, S, A> MutEdge<'a, T, S, A> {
    /// The graph as seen through this cursor.
    pub open spec fn cur(self) -> Graph<T, S, A> {
        mut_ref_current(self.graph)
    }

    /// The cursor addresses an edge that exists in a well-formed graph.
    pub open spec fn wf(self) -> bool {
        &&& self.cur().wf()
        &&& self.id.0 < self.cur().arcs@.len()
    }

    /// The edge record this cursor addresses.
    pub open spec fn arc(self) -> RawEdge<A> {
        self.cur().arcs@[self.id.0 as int]
    }

    pub(crate) fn new(graph: &'a mut Graph<T, S, A>, id: EdgeId) -> (r: Self)
        ensures
            r.cur() == *old(graph),
            mut_ref_future(r.graph) == *final(graph),
            r.id == id,
    {
        MutEdge { graph, id }
    }

    /// Returns an ID that identifies this edge uniquely within its graph. The
    /// ID may change when the graph is pruned.
    pub fn get_id(&self) -> (r: usize)
        ensures
            r == self.id.0,
    {
        self.id.as_usize()
    }

    /// Returns the data at this edge.
    pub fn get_data<'s>(&'s self) -> (r: &'s A)
        requires
            self.wf(),
        ensures
            *r == self.arc().data,
    {
        &self.graph.get_arc(self.id).data
    }

    /// Returns the data at this edge, mutably. Until the returned borrow
    /// ends, the graph seen by this cursor already shows the final value that
    /// will be written through it.
    pub fn get_data_mut<'s>(&'s mut self) -> (r: &'s mut A)
        requires
            old(self).wf(),
        ensures
            *r == old(self).arc().data,
            final(self).id == old(self).id,
            mut_ref_future(final(self).graph) == mut_ref_future(old(self).graph),
            same_but_edge_data(old(self).cur(), final(self).cur(), old(self).id.0 as int),
            final(self).cur().arcs@[old(self).id.0 as int].data == *final(r),
    {
        let id = self.id.0;
        let a = &mut self.graph.arcs[id];
        &mut a.data
    }

    /// Returns a read-only node for this edge's target vertex, scoped to a
    /// borrow of `self`.
    pub fn get_target<'s>(&'s self) -> (r: Node<'s, T, S, A>)
        requires
            self.wf(),
        ensures
            *r.graph == self.cur(),
            r.id == self.arc().target,
            r.wf(),
    {
        proof {
            assert(self.cur().arc_wf(self.id.0 as int));
        }
        Node { graph: &*self.graph, id: self.graph.get_arc(self.id).target }
    }

    /// Returns a mutable node for this edge's target vertex, scoped to a
    /// borrow of `self`.
    pub fn get_target_mut<'s>(&'s mut self) -> (r: MutNode<'s, T, S, A>)
        requires
            old(self).wf(),
        ensures
            r.cur() == old(self).cur(),
            r.id == old(self).arc().target,
            r.wf(),
            final(self).id == old(self).id,
            final(self).cur() == mut_ref_future(r.graph),
            mut_ref_future(final(self).graph) == mut_ref_future(old(self).graph),
    {
        proof {
            assert(self.cur().arc_wf(self.id.0 as int));
        }
        let id = self.graph.get_arc(self.id).target;
        MutNode { graph: &mut *self.graph, id }
    }

    /// Returns a mutable node for this edge's target vertex; `self` is
    /// consumed.
    pub fn to_target(self) -> (r: MutNode<'a, T, S, A>)
        requires
            self.wf(),
        ensures
            r.cur() == self.cur(),
            mut_ref_future(r.graph) == mut_ref_future(self.graph),
            r.id == self.arc().target,
            r.wf(),
    {
        proof {
            assert(self.cur().arc_wf(self.id.0 as int));
        }
        let id = self.graph.get_arc(self.id).target;
        MutNode { graph: self.graph, id }
    }

    /// Returns a read-only node for this edge's source vertex, scoped to a
    /// borrow of `self`.
    pub fn get_source<'s>(&'s self) -> (r: Node<'s, T, S, A>)
        requires
            self.wf(),
        ensures
            *r.graph == self.cur(),
            r.id == self.arc().source,
            r.wf(),
    {
        proof {
            assert(self.cur().arc_wf(self.id.0 as int));
        }
        Node { graph: &*self.graph, id: self.graph.get_arc(self.id).source }
    }

    /// Returns a mutable node for this edge's source vertex, scoped to a
    /// borrow of `self`.
    pub fn get_source_mut<'s>(&'s mut self) -> (r: MutNode<'s, T, S, A>)
        requires
            old(self).wf(),
        ensures
            r.cur() == old(self).cur(),
            r.id == old(self).arc().source,
            r.wf(),
            final(self).id == old(self).id,
            final(self).cur() == mut_ref_future(r.graph),
            mut_ref_future(final(self).graph) == mut_ref_future(old(self).graph),
    {
        proof {
            assert(self.cur().arc_wf(self.id.0 as int));
        }
        let id = self.graph.get_arc(self.id).source;
        MutNode { graph: &mut *self.graph, id }
    }

    /// Returns a mutable node for this edge's source vertex; `self` is
    /// consumed.
    pub fn to_source(self) -> (r: MutNode<'a, T, S, A>)
        requires
            self.wf(),
        ensures
            r.cur() == self.cur(),
            mut_ref_future(r.graph) == mut_ref_future(self.graph),
            r.id == self.arc().source,
            r.wf(),
    {
        proof {
            assert(self.cur().arc_wf(self.id.0 as int));
        }
        let id = self.graph.get_arc(self.id).source;
        MutNode { graph: self.graph, id }
    }

    /// Returns a read-only edge handle for the same edge. `self` is consumed
    /// and the graph can no longer be mutated through it, so the borrow
    /// resolves to the current graph.
    pub fn to_edge(self) -> (r: Edge<'a, T, S, A>)
        ensures
            *r.graph == self.cur(),
            mut_ref_future(self.graph) == self.cur(),
            r.id == self.id,
    {
        Edge { graph: &*self.graph, id: self.id }
    }
}

} // verus!
