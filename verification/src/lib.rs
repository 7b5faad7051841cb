//! A de-duplicating, incrementally built directed graph for state-space
//! search.
//!
//! Vertices stand for canonical application states: adding an edge toward a
//! state that is already known reuses the existing vertex instead of
//! duplicating it. The graph stores vertices and edges in flat arenas indexed
//! by dense integer identifiers, keeps a bijection between states and
//! vertices, and supports pruning everything that is unreachable from a set
//! of root states, compacting the arenas in breadth-first discovery order.
//!
//! Navigation happens through lightweight cursor types: read-only cursors in
//! [`nav`], read-write cursors in [`mutators`], and a traversal-history stack
//! in [`search`]. The reachability collector lives in [`mark_compact`].
//!
//! Identifiers are stable across ordinary growth (`add_node`, `add_edge`) but
//! are reassigned by any pruning operation: after a prune, every previously
//! held id or cursor must be discarded.

use vstd::prelude::*;

use std::hash::Hash;

pub mod base;
pub mod mark_compact;
pub mod mutators;
pub mod nav;
pub mod search;

use base::{EdgeId, RawEdge, RawVertex, VertexId};

verus! {

/// Holds when `post` equals `pre` except that edge `e` was appended to the
/// child list of vertex `src` and to the parent list of vertex `tgt` (for a
/// self-loop, to both lists of the one vertex).
pub open spec fn edge_attached<S>(
    pre: Seq<RawVertex<S>>,
    post: Seq<RawVertex<S>>,
    src: int,
    tgt: int,
    e: EdgeId,
) -> bool {
    &&& 0 <= src < pre.len()
    &&& 0 <= tgt < pre.len()
    &&& post.len() == pre.len()
    &&& forall|v: int| 0 <= v < pre.len() ==> (#[trigger] post[v]).data == pre[v].data
    &&& forall|v: int|
        0 <= v < pre.len() && v != src ==> (#[trigger] post[v]).children@ == pre[v].children@
    &&& forall|v: int|
        0 <= v < pre.len() && v != tgt ==> (#[trigger] post[v]).parents@ == pre[v].parents@
    &&& post[src].children@ == pre[src].children@.push(e)
    &&& post[tgt].parents@ == pre[tgt].parents@.push(e)
}

/// De-duplication law: resolving the same state twice (as `add_node` and the
/// endpoint resolution of `add_edge` do) yields the same vertex id both
/// times, and the second resolution leaves the graph unchanged, so any data
/// supplied with it is discarded.
pub proof fn lemma_resolve_dedup<T: Hash + Eq + Clone, S, A>(
    g0: Graph<T, S, A>,
    state: T,
    g1: Graph<T, S, A>,
    id1: int,
    g2: Graph<T, S, A>,
    id2: int,
)
    requires
        g0.wf(),
        g1.wf(),
        g0.resolved_vertex(g1, state, id1),
        g1.resolved_vertex(g2, state, id2),
    ensures
        g2 == g1,
        id2 == id1,
{
    if g0.has_state(state) {
        assert(g1 == g0);
    } else {
        assert(g1.states@ == g0.states@.push(state));
        assert(g1.states@[id1] == state);
        assert(g1.has_state(state));
        let j = g1.state_index(state);
        assert(0 <= j < g1.states@.len() && g1.states@[j] == state);
        assert(j == id1);
    }
}

/// Arity-growth law: attaching an edge from `src` to `tgt` grows the child
/// list of `src` by exactly one entry and the parent list of `tgt` by exactly
/// one entry, and touches no other list.
pub proof fn lemma_edge_arity<S>(
    pre: Seq<RawVertex<S>>,
    post: Seq<RawVertex<S>>,
    src: int,
    tgt: int,
    e: EdgeId,
)
    requires
        edge_attached(pre, post, src, tgt, e),
    ensures
        post[src].children@.len() == pre[src].children@.len() + 1,
        post[tgt].parents@.len() == pre[tgt].parents@.len() + 1,
        forall|v: int|
            0 <= v < pre.len() && v != src ==> (#[trigger] post[v]).children@.len()
                == pre[v].children@.len(),
        forall|v: int|
            0 <= v < pre.len() && v != tgt ==> (#[trigger] post[v]).parents@.len()
                == pre[v].parents@.len(),
{
}

/// A search graph.
///
/// - `T`: the type of application states. States are compared with `==` for
///   de-duplication; the contracts describe that lookup exactly when the
///   type's equality agrees with logical equality
///   (`vstd::laws_eq::obeys_concrete_eq`).
/// - `S`: the type of vertex data.
/// - `A`: the type of edge data.
///
/// Vertices are addressed by state. To examine graph contents, obtain a node
/// cursor with `find_node`. To modify the graph, add new vertices with
/// `add_node` and edges with `add_edge`, or retrieve a mutable cursor with
/// `find_node_mut`.
pub struct Graph<T: Hash + Eq + Clone, S, A> {
    /// Canonical state of each vertex; entry `i` belongs to the vertex with
    /// `VertexId(i)`. The entries are pairwise distinct.
    pub states: Vec<T>,
    /// Vertex arena, indexed by `VertexId`.
    pub vertices: Vec<RawVertex<S>>,
    /// Edge arena, indexed by `EdgeId`.
    pub arcs: Vec<RawEdge<A>>,
}

impl<T: Hash + Eq + Clone, S, A> Graph<T, S, A> {
    /// No two vertices carry the same state.
    pub open spec fn states_distinct(self) -> bool {
        forall|i: int, j: int|
            0 <= i < self.states@.len() && 0 <= j < self.states@.len() && i != j ==> self.states@[i]
                != self.states@[j]
    }

    /// Both endpoints of the edge at index `e` are in range.
    pub open spec fn arc_wf(self, e: int) -> bool {
        &&& self.arcs@[e].source.0 < self.vertices@.len()
        &&& self.arcs@[e].target.0 < self.vertices@.len()
    }

    /// Every child entry of the vertex at index `v` names an edge that leaves
    /// `v`, and every parent entry names an edge that enters `v`.
    pub open spec fn vertex_wf(self, v: int) -> bool {
        &&& forall|k: int|
            0 <= k < self.vertices@[v].children@.len() ==> {
                let e = (#[trigger] self.vertices@[v].children@[k]).0;
                &&& e < self.arcs@.len()
                &&& self.arcs@[e as int].source.0 == v
            }
        &&& forall|k: int|
            0 <= k < self.vertices@[v].parents@.len() ==> {
                let e = (#[trigger] self.vertices@[v].parents@[k]).0;
                &&& e < self.arcs@.len()
                &&& self.arcs@[e as int].target.0 == v
            }
    }

    /// Structural invariant of a graph: one state per vertex, pairwise
    /// distinct states, and parent/child lists consistent with the edge
    /// arena.
    pub open spec fn wf(self) -> bool {
        &&& self.states@.len() == self.vertices@.len()
        &&& self.states_distinct()
        &&& forall|e: int| 0 <= e < self.arcs@.len() ==> #[trigger] self.arc_wf(e)
        &&& forall|v: int| 0 <= v < self.vertices@.len() ==> #[trigger] self.vertex_wf(v)
    }

    /// Some vertex carries `state`.
    pub open spec fn has_state(self, state: T) -> bool {
        exists|i: int| 0 <= i < self.states@.len() && self.states@[i] == state
    }

    /// Index of the vertex carrying `state`; meaningful when `has_state`
    /// holds (with distinct states the index is unique).
    pub open spec fn state_index(self, state: T) -> int {
        choose|i: int| 0 <= i < self.states@.len() && self.states@[i] == state
    }

    /// Holds when `post` equals `self` extended by one isolated vertex that
    /// carries `state`; the new vertex's data is not constrained here.
    pub open spec fn added_vertex(self, post: Self, state: T) -> bool {
        &&& post.states@ == self.states@.push(state)
        &&& post.vertices@.len() == self.vertices@.len() + 1
        &&& forall|v: int|
            0 <= v < self.vertices@.len() ==> #[trigger] post.vertices@[v] == self.vertices@[v]
        &&& post.vertices@.last().parents@.len() == 0
        &&& post.vertices@.last().children@.len() == 0
        &&& post.arcs@ == self.arcs@
    }

    /// Endpoint resolution: `id` addresses the vertex carrying `state` in
    /// `post`, where `post` is `self` if `state` was already known and `self`
    /// plus one new vertex otherwise.
    pub open spec fn resolved_vertex(self, post: Self, state: T, id: int) -> bool {
        if self.has_state(state) {
            &&& post == self
            &&& id == self.state_index(state)
        } else {
            &&& self.added_vertex(post, state)
            &&& id == self.vertices@.len()
        }
    }

    /// Creates an empty graph with no vertices or edges.
    pub fn new() -> (r: Self)
        ensures
            r.wf(),
            r.states@.len() == 0,
            r.vertices@.len() == 0,
            r.arcs@.len() == 0,
    {
        Graph { states: Vec::new(), vertices: Vec::new(), arcs: Vec::new() }
    }

    /// Returns the number of live vertices in the graph.
    pub fn vertex_count(&self) -> (r: usize)
        ensures
            r == self.vertices@.len(),
    {
        self.vertices.len()
    }

    /// Returns the number of live edges in the graph.
    pub fn edge_count(&self) -> (r: usize)
        ensures
            r == self.arcs@.len(),
    {
        self.arcs.len()
    }

    /// Returns the vertex record for the given `VertexId`.
    pub fn get_vertex(&self, v: VertexId) -> (r: &RawVertex<S>)
        requires
            v.0 < self.vertices@.len(),
        ensures
            *r == self.vertices@[v.0 as int],
    {
        &self.vertices[v.0]
    }

    /// Returns the edge record for the given `EdgeId`.
    pub fn get_arc(&self, e: EdgeId) -> (r: &RawEdge<A>)
        requires
            e.0 < self.arcs@.len(),
        ensures
            *r == self.arcs@[e.0 as int],
    {
        &self.arcs[e.0]
    }

    /// Returns the canonical state associated with `id`, or `None` when `id`
    /// does not address a vertex.
    pub fn get_state(&self, id: VertexId) -> (r: Option<&T>)
        requires
            self.wf(),
        ensures
            match r {
                Some(s) => id.0 < self.states@.len() && *s == self.states@[id.0 as int],
                None => id.0 >= self.states@.len(),
            },
    {
        if id.0 < self.states.len() {
            Some(&self.states[id.0])
        } else {
            None
        }
    }

    /// Scans the namespace for `state`, returning the index of the vertex
    /// that carries it.
    pub(crate) fn find_index(&self, state: &T) -> (r: Option<usize>)
        requires
            vstd::laws_eq::obeys_concrete_eq::<T>(),
            self.wf(),
        ensures
            match r {
                Some(i) => {
                    &&& self.has_state(*state)
                    &&& i < self.states@.len()
                    &&& self.states@[i as int] == *state
                    &&& i as int == self.state_index(*state)
                },
                None => !self.has_state(*state),
            },
    {
        let n = self.states.len();
        let mut i: usize = 0;
        while i < n
            invariant
                vstd::laws_eq::obeys_concrete_eq::<T>(),
                self.wf(),
                n == self.states@.len(),
                0 <= i <= n,
                forall|j: int| 0 <= j < i ==> self.states@[j] != *state,
            decreases n - i,
        {
            let hit = self.states[i] == *state;
            proof {
                reveal(vstd::laws_eq::obeys_concrete_eq);
            }
            if hit {
                proof {
                    assert(self.states@[i as int] == *state);
                    let j = self.state_index(*state);
                    assert(0 <= j < self.states@.len() && self.states@[j] == *state);
                    assert(j == i as int);
                }
                return Some(i);
            }
            i += 1;
        }
        None
    }

    /// Appends a fresh vertex with the given data and no edges. The caller is
    /// responsible for extending the namespace to keep the graph well formed.
    fn add_raw_vertex(&mut self, data: S)
        ensures
            final(self).states@ == old(self).states@,
            final(self).arcs@ == old(self).arcs@,
            final(self).vertices@.len() == old(self).vertices@.len() + 1,
            forall|v: int|
                0 <= v < old(self).vertices@.len() ==> #[trigger] final(self).vertices@[v] == old(
                    self,
                ).vertices@[v],
            final(self).vertices@.last().data == data,
            final(self).vertices@.last().parents@.len() == 0,
            final(self).vertices@.last().children@.len() == 0,
    {
        self.vertices.push(RawVertex { data, parents: Vec::new(), children: Vec::new() });
    }

    /// Appends a brand-new vertex carrying `state` with the given data. The
    /// caller must have checked that `state` is not yet known.
    fn insert_new_state(&mut self, state: T, data: S) -> (id: usize)
        requires
            old(self).wf(),
            !old(self).has_state(state),
        ensures
            final(self).wf(),
            old(self).added_vertex(*final(self), state),
            id == old(self).vertices@.len(),
            final(self).vertices@[id as int].data == data,
    {
        let id = self.vertices.len();
        self.add_raw_vertex(data);
        self.states.push(state);
        proof {
                    assert(self.states@ == old(self).states@.push(state));
                    assert(!old(self).has_state(state));
                    assert forall|i: int, j: int|
                        0 <= i < self.states@.len() && 0 <= j < self.states@.len() && i
                            != j implies self.states@[i] != self.states@[j] by {
                        let n = old(self).states@.len() as int;
                        if i < n && j < n {
                            assert(old(self).states@[i] != old(self).states@[j]);
                        } else if i < n && j == n {
                            assert(self.states@[j] == state);
                            assert(old(self).states@[i] != state);
                        } else if i == n && j < n {
                            assert(self.states@[i] == state);
                            assert(old(self).states@[j] != state);
                        }
                    }
                    assert forall|e: int| 0 <= e < self.arcs@.len() implies #[trigger] self.arc_wf(
                        e,
                    ) by {
                        assert(old(self).arc_wf(e));
                    }
                    assert forall|v: int| 0 <= v < self.vertices@.len() implies #[trigger] self.vertex_wf(
                        v,
                    ) by {
                        if v < old(self).vertices@.len() {
                            assert(old(self).vertex_wf(v));
                            assert(self.vertices@[v] == old(self).vertices@[v]);
                        } else {
                            assert(self.vertices@[v] == self.vertices@.last());
                            assert(self.vertices@[v].children@.len() == 0);
                            assert(self.vertices@[v].parents@.len() == 0);
                        }
                    }
                    assert(self.wf());
                }
        id
    }

    /// Resolves `state` to a vertex index, creating a vertex with the given
    /// data when the state is new (the data is discarded otherwise).
    pub(crate) fn resolve_state(&mut self, state: T, data: S) -> (id: usize)
        requires
            vstd::laws_eq::obeys_concrete_eq::<T>(),
            old(self).wf(),
        ensures
            final(self).wf(),
            old(self).resolved_vertex(*final(self), state, id as int),
            id < final(self).vertices@.len(),
            !old(self).has_state(state) ==> final(self).vertices@[id as int].data == data,
    {
        match self.find_index(&state) {
            Some(i) => i,
            None => self.insert_new_state(state, data),
        }
    }

    /// Resolves `state` to a vertex index, creating a vertex when the state
    /// is new. For a new vertex the data is produced by `f`, which is invoked
    /// only in that case.
    pub(crate) fn resolve_state_with<F: FnOnce(&T) -> S>(&mut self, state: T, f: F) -> (id: usize)
        requires
            vstd::laws_eq::obeys_concrete_eq::<T>(),
            old(self).wf(),
            call_requires(f, (&state,)),
        ensures
            final(self).wf(),
            old(self).resolved_vertex(*final(self), state, id as int),
            id < final(self).vertices@.len(),
            !old(self).has_state(state) ==> call_ensures(
                f,
                (&state,),
                final(self).vertices@[id as int].data,
            ),
    {
        match self.find_index(&state) {
            Some(i) => i,
            None => {
                let data = f(&state);
                self.insert_new_state(state, data)
            },
        }
    }


    /// Gets a read-only node cursor for the given state, or `None` when the
    /// state is unknown. No side effect.
    pub fn find_node<'s>(&'s self, state: &T) -> (r: Option<nav::Node<'s, T, S, A>>)
        requires
            vstd::laws_eq::obeys_concrete_eq::<T>(),
            self.wf(),
        ensures
            match r {
                Some(n) => {
                    &&& n.graph == self
                    &&& self.has_state(*state)
                    &&& n.id.0 as int == self.state_index(*state)
                    &&& n.wf()
                },
                None => !self.has_state(*state),
            },
    {
        match self.find_index(state) {
            Some(i) => Some(nav::Node::new(self, VertexId(i))),
            None => None,
        }
    }

    /// Gets a mutable node cursor for the given state, or `None` when the
    /// state is unknown. No side effect.
    pub fn find_node_mut<'s>(&'s mut self, state: &T) -> (r: Option<
        mutators::MutNode<'s, T, S, A>,
    >)
        requires
            vstd::laws_eq::obeys_concrete_eq::<T>(),
            old(self).wf(),
        ensures
            match r {
                Some(n) => {
                    &&& n.cur() == *old(self)
                    &&& *final(self) == mut_ref_future(n.graph)
                    &&& old(self).has_state(*state)
                    &&& n.id.0 as int == old(self).state_index(*state)
                    &&& n.wf()
                },
                None => {
                    &&& !old(self).has_state(*state)
                    &&& *final(self) == *old(self)
                },
            },
    {
        match self.find_index(state) {
            Some(i) => Some(mutators::MutNode::new(self, VertexId(i))),
            None => None,
        }
    }

    /// Gets a mutable node cursor for the given state, or `None` when the
    /// state is unknown. No side effect.
    pub fn get_node_mut<'s>(&'s mut self, state: &T) -> (r: Option<
        mutators::MutNode<'s, T, S, A>,
    >)
        requires
            vstd::laws_eq::obeys_concrete_eq::<T>(),
            old(self).wf(),
        ensures
            match r {
                Some(n) => {
                    &&& n.cur() == *old(self)
                    &&& *final(self) == mut_ref_future(n.graph)
                    &&& old(self).has_state(*state)
                    &&& n.id.0 as int == old(self).state_index(*state)
                    &&& n.wf()
                },
                None => {
                    &&& !old(self).has_state(*state)
                    &&& *final(self) == *old(self)
                },
            },
    {
        self.find_node_mut(state)
    }

    /// Adds a vertex (with no parents or children) for the given state and
    /// data and returns a mutable cursor for it.
    ///
    /// If `state` is already known, returns a cursor to the existing vertex
    /// and discards `data`: the provided data is applied only when `state` is
    /// a novel state.
    pub fn add_node<'s>(&'s mut self, state: T, data: S) -> (r: mutators::MutNode<'s, T, S, A>)
        requires
            vstd::laws_eq::obeys_concrete_eq::<T>(),
            old(self).wf(),
        ensures
            r.wf(),
            *final(self) == mut_ref_future(r.graph),
            old(self).resolved_vertex(r.cur(), state, r.id.0 as int),
            !old(self).has_state(state) ==> r.cur().vertices@[r.id.0 as int].data == data,
    {
        let id = self.resolve_state(state, data);
        mutators::MutNode::new(self, VertexId(id))
    }

    /// Adds a root vertex for the given state and data: `add_node` under its
    /// traditional name. The returned cursor addresses a vertex with no
    /// parents only when `state` was novel.
    pub fn add_root<'s>(&'s mut self, state: T, data: S) -> (r: mutators::MutNode<'s, T, S, A>)
        requires
            vstd::laws_eq::obeys_concrete_eq::<T>(),
            old(self).wf(),
        ensures
            r.wf(),
            *final(self) == mut_ref_future(r.graph),
            old(self).resolved_vertex(r.cur(), state, r.id.0 as int),
            !old(self).has_state(state) ==> r.cur().vertices@[r.id.0 as int].data == data,
    {
        self.add_node(state, data)
    }

    /// Adds an edge from the vertex with state `source` to the vertex with
    /// state `dest`. Endpoints that are not yet known are created, with data
    /// provided by the `source_data` and `dest_data` callbacks; each callback
    /// is invoked only when its endpoint is newly created, and is given the
    /// state being inserted. Returns a mutable cursor for the new edge.
    pub fn add_edge<'s, F: FnOnce(&T) -> S, G: FnOnce(&T) -> S>(
        &'s mut self,
        source: T,
        source_data: F,
        dest: T,
        dest_data: G,
        edge_data: A,
    ) -> (r: mutators::MutEdge<'s, T, S, A>)
        requires
            vstd::laws_eq::obeys_concrete_eq::<T>(),
            old(self).wf(),
            call_requires(source_data, (&source,)),
            call_requires(dest_data, (&dest,)),
        ensures
            r.wf(),
            *final(self) == mut_ref_future(r.graph),
            r.id.0 == old(self).arcs@.len(),
            exists|g1: Self, sid: int, g2: Self, did: int|
                {
                    &&& #[trigger] old(self).resolved_vertex(g1, source, sid)
                    &&& (!old(self).has_state(source) ==> call_ensures(
                        source_data,
                        (&source,),
                        g1.vertices@[sid].data,
                    ))
                    &&& #[trigger] g1.resolved_vertex(g2, dest, did)
                    &&& (!g1.has_state(dest) ==> call_ensures(
                        dest_data,
                        (&dest,),
                        g2.vertices@[did].data,
                    ))
                    &&& r.cur().states@ == g2.states@
                    &&& r.cur().arcs@ == g2.arcs@.push(
                        RawEdge {
                            data: edge_data,
                            source: VertexId(sid as usize),
                            target: VertexId(did as usize),
                        },
                    )
                    &&& edge_attached(
                        g2.vertices@,
                        r.cur().vertices@,
                        sid,
                        did,
                        EdgeId(old(self).arcs@.len() as usize),
                    )
                },
    {
        let source_id = self.resolve_state_with(source, source_data);
        let ghost g1 = *self;
        let ghost sid = source_id as int;
        let dest_id = self.resolve_state_with(dest, dest_data);
        let ghost g2 = *self;
        let ghost did = dest_id as int;
        let eid = self.add_raw_edge(edge_data, VertexId(source_id), VertexId(dest_id));
        proof {
            assert(old(self).resolved_vertex(g1, source, sid));
            assert(g1.resolved_vertex(g2, dest, did));
        }
        mutators::MutEdge::new(self, eid)
    }

    /// The subset of `roots` that names known states, resolved to vertex ids
    /// in the order given.
    pub open spec fn resolved_roots(self, roots: Seq<T>) -> Seq<VertexId> {
        roots.filter(|s: T| self.has_state(s)).map_values(
            |s: T| VertexId(self.state_index(s) as usize),
        )
    }

    /// Deletes every vertex and edge that is not reachable from the vertices
    /// named by `roots`; unknown root states are silently ignored. Survivors
    /// are renumbered in breadth-first discovery order, as stated by
    /// [`mark_compact::pruned`]: every previously held id or cursor is
    /// invalid afterwards.
    #[verifier::loop_isolation(false)]
    pub fn retain_reachable_from(&mut self, roots: &[T])
        requires
            vstd::laws_eq::obeys_concrete_eq::<T>(),
            old(self).wf(),
        ensures
            final(self).wf(),
            mark_compact::pruned(
                *old(self),
                old(self).resolved_roots(roots@),
                *final(self),
            ),
            exists|c: mark_compact::Collector| #[trigger] c.mark_complete(
                *old(self),
                old(self).resolved_roots(roots@),
            ),
    {
        let ghost pred = |s: T| old(self).has_state(s);
        let ghost idmap = |s: T| VertexId(old(self).state_index(s) as usize);
        let mut ids: Vec<VertexId> = Vec::new();
        let mut i: usize = 0;
        while i < roots.len()
            invariant
                vstd::laws_eq::obeys_concrete_eq::<T>(),
                *self == *old(self),
                self.wf(),
                i <= roots@.len(),
                ids@ == roots@.take(i as int).filter(pred).map_values(idmap),
            decreases roots@.len() - i,
        {
            let ghost ids_pre = ids@;
            let ghost taken = roots@.take(i as int);
            proof {
                reveal(Seq::filter);
                assert(roots@.take(i as int + 1).drop_last() =~= taken);
                assert(roots@.take(i as int + 1).last() == roots@[i as int]);
            }
            match self.find_index(&roots[i]) {
                Some(ix) => {
                    ids.push(VertexId(ix));
                    proof {
                        reveal(Seq::filter);
                        assert(self.has_state(roots@[i as int]));
                        assert(old(self).has_state(roots@[i as int]));
                        assert(pred(roots@[i as int]));
                        assert(roots@.take(i as int + 1).filter(pred) == taken.filter(pred).push(
                            roots@[i as int],
                        ));
                        assert(ix as int == old(self).state_index(roots@[i as int]));
                        assert(idmap(roots@[i as int]) == VertexId(ix));
                        assert(taken.filter(pred).push(roots@[i as int]).map_values(idmap)
                            =~= taken.filter(pred).map_values(idmap).push(
                            idmap(roots@[i as int]),
                        ));
                        assert(ids@ =~= roots@.take(i as int + 1).filter(pred).map_values(idmap));
                    }
                },
                None => {
                    proof {
                        reveal(Seq::filter);
                        assert(!self.has_state(roots@[i as int]));
                        assert(!old(self).has_state(roots@[i as int]));
                        assert(!pred(roots@[i as int]));
                        assert(roots@.take(i as int + 1).filter(pred) == taken.filter(pred));
                    }
                },
            }
            i += 1;
        }
        proof {
            assert(roots@.take(roots@.len() as int) =~= roots@);
        }
        let ghost rr = old(self).resolved_roots(roots@);
        self.retain_reachable_from_ids(ids.as_slice());
        proof {
            assert(ids@ == rr);
            let c = choose|c: mark_compact::Collector| #[trigger] c.mark_complete(
                *old(self),
                ids@,
            );
            assert(c.mark_complete(*old(self), rr));
        }
    }

    /// Returns true iff `to` can be reached from `from` by following child
    /// edges; a vertex always reaches itself. This is the ancestry check that
    /// cycle-aware edge expansion performs before installing a parent
    /// back-reference: expanding an edge toward a state that already reaches
    /// the edge's source would close a cycle.
    pub fn path_exists(&self, from: VertexId, to: VertexId) -> (r: bool)
        requires
            self.wf(),
            from.0 < self.vertices@.len(),
            to.0 < self.vertices@.len(),
        ensures
            r == mark_compact::reachable(*self, seq![from], to.0 as int),
    {
        let ghost roots = seq![from];
        let mut roots_vec: Vec<VertexId> = Vec::new();
        roots_vec.push(from);
        proof {
            assert(roots_vec@ =~= roots);
        }
        let mut c = mark_compact::Collector::new(self);
        c.mark(self, roots_vec.as_slice());
        proof {
            mark_compact::lemma_marked_iff_reachable(c, *self, roots);
        }
        c.state_id_map[to.0].is_some()
    }

    /// As `retain_reachable_from`, but working over raw vertex ids.
    pub(crate) fn retain_reachable_from_ids(&mut self, root_ids: &[VertexId])
        requires
            old(self).wf(),
        ensures
            final(self).wf(),
            mark_compact::pruned(*old(self), root_ids@, *final(self)),
            exists|c: mark_compact::Collector| #[trigger] c.mark_complete(*old(self), root_ids@),
    {
        mark_compact::Collector::retain_reachable(self, root_ids);
    }

    /// Appends a new edge with the given data, source, and target, recording
    /// it in the source's child list and the target's parent list. Returns
    /// the id of the new edge.
    pub(crate) fn add_raw_edge(&mut self, data: A, source: VertexId, target: VertexId) -> (r:
        EdgeId)
        requires
            old(self).wf(),
            source.0 < old(self).vertices@.len(),
            target.0 < old(self).vertices@.len(),
        ensures
            final(self).wf(),
            r.0 == old(self).arcs@.len(),
            final(self).states@ == old(self).states@,
            final(self).arcs@ == old(self).arcs@.push(RawEdge { data, source, target }),
            edge_attached(
                old(self).vertices@,
                final(self).vertices@,
                source.0 as int,
                target.0 as int,
                r,
            ),
    {
        let eid = EdgeId(self.arcs.len());
        let vs = &mut self.vertices[source.0];
        vs.children.push(eid);
        let vt = &mut self.vertices[target.0];
        vt.parents.push(eid);
        self.arcs.push(RawEdge { data, source, target });
        proof {
            assert forall|e: int| 0 <= e < self.arcs@.len() implies #[trigger] self.arc_wf(e) by {
                if e < old(self).arcs@.len() {
                    assert(old(self).arc_wf(e));
                }
            }
            assert forall|v: int| 0 <= v < self.vertices@.len() implies #[trigger] self.vertex_wf(
                v,
            ) by {
                assert(old(self).vertex_wf(v));
                let ovx = old(self).vertices@[v];
                let nvx = self.vertices@[v];
                assert forall|k: int| 0 <= k < nvx.children@.len() implies {
                    let e = (#[trigger] nvx.children@[k]).0;
                    &&& e < self.arcs@.len()
                    &&& self.arcs@[e as int].source.0 == v
                } by {
                    if v == source.0 as int {
                        assert(nvx.children@ == ovx.children@.push(eid));
                        if k < ovx.children@.len() {
                            assert(nvx.children@[k] == ovx.children@[k]);
                        } else {
                            assert(nvx.children@[k] == eid);
                        }
                    } else {
                        assert(nvx.children@ == ovx.children@);
                    }
                }
                assert forall|k: int| 0 <= k < nvx.parents@.len() implies {
                    let e = (#[trigger] nvx.parents@[k]).0;
                    &&& e < self.arcs@.len()
                    &&& self.arcs@[e as int].target.0 == v
                } by {
                    if v == target.0 as int {
                        assert(nvx.parents@ == ovx.parents@.push(eid));
                        if k < ovx.parents@.len() {
                            assert(nvx.parents@[k] == ovx.parents@[k]);
                        } else {
                            assert(nvx.parents@[k] == eid);
                        }
                    } else {
                        assert(nvx.parents@ == ovx.parents@);
                    }
                }
            }
            assert(self.wf());
        }
        eid
    }
}

} // verus!
