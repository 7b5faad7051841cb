//! Read-only navigation cursors.
//!
//! The cursors in this module borrow the graph immutably: any number of them
//! may be alive at the same time, and they may be copied freely. Each cursor
//! is just a graph reference paired with an identifier, and can be re-derived
//! at any time.

use vstd::prelude::*;

use std::hash::Hash;

use crate::base::{EdgeId, RawEdge, RawVertex, VertexId};
use crate::Graph;

verus! {

/// Immutable handle to a graph vertex ("node handle").
///
/// This zipper-like type enables traversal of a graph along the vertex's
/// incoming and outgoing edges.
pub struct Node<'a, T: Hash + Eq + Clone, S, A> {
    pub graph: &'a Graph<T, S, A>,
    pub id: VertexId,
}

impl<'a, T: Hash + Eq + Clone, S, A> Clone for Node<'a, T, S, A> {
    fn clone(&self) -> (r: Self)
        ensures
            r == *self,
    {
        Node { graph: self.graph, id: self.id }
    }
}

impl<'a, T: Hash + Eq + Clone, S, A> Node<'a, T, S, A> {
    /// The cursor addresses a vertex that exists in a well-formed graph.
    pub open spec fn wf(self) -> bool {
        &&& self.graph.wf()
        &&& self.id.0 < self.graph.vertices@.len()
    }

    /// The vertex record this cursor addresses.
    pub open spec fn vertex(self) -> RawVertex<S> {
        self.graph.vertices@[self.id.0 as int]
    }

    pub(crate) fn new(graph: &'a Graph<T, S, A>, id: VertexId) -> (r: Self)
        ensures
            r.graph == graph,
            r.id == id,
    {
        Node { graph, id }
    }

    /// Returns the canonical state that addresses this node.
    pub fn get_label(&self) -> (r: &'a T)
        requires
            self.wf(),
        ensures
            *r == self.graph.states@[self.id.0 as int],
    {
        &self.graph.states[self.id.0]
    }

    /// Returns an ID that identifies this vertex uniquely within its graph.
    /// The ID may change when the graph is pruned.
    pub fn get_id(&self) -> (r: usize)
        ensures
            r == self.id.0,
    {
        self.id.as_usize()
    }

    /// Returns the data at this vertex.
    pub fn get_data(&self) -> (r: &'a S)
        requires
            self.wf(),
        ensures
            *r == self.vertex().data,
    {
        &self.graph.get_vertex(self.id).data
    }

    /// Returns true iff this vertex has no outgoing edges.
    pub fn is_leaf(&self) -> (r: bool)
        requires
            self.wf(),
        ensures
            r == (self.vertex().children@.len() == 0),
    {
        self.graph.get_vertex(self.id).children.len() == 0
    }

    /// Returns true iff this vertex has no incoming edges.
    pub fn is_root(&self) -> (r: bool)
        requires
            self.wf(),
        ensures
            r == (self.vertex().parents@.len() == 0),
    {
        self.graph.get_vertex(self.id).parents.len() == 0
    }

    /// Returns a traversible list of outgoing edges.
    pub fn get_child_list(&self) -> (r: ChildList<'a, T, S, A>)
        ensures
            r.graph == self.graph,
            r.id == self.id,
    {
        ChildList { graph: self.graph, id: self.id }
    }

    /// Returns a traversible list of incoming edges.
    pub fn get_parent_list(&self) -> (r: ParentList<'a, T, S, A>)
        ensures
            r.graph == self.graph,
            r.id == self.id,
    {
        ParentList { graph: self.graph, id: self.id }
    }
}

/// A traversible list of a vertex's outgoing edges.
pub struct ChildList<'a, T: Hash + Eq + Clone, S, A> {
    pub graph: &'a Graph<T, S, A>,
    pub id: VertexId,
}

impl<'a, T: Hash + Eq + Clone, S, A> Clone for ChildList<'a, T, S, A> {
    fn clone(&self) -> (r: Self)
        ensures
            r == *self,
    {
        ChildList { graph: self.graph, id: self.id }
    }
}

impl<'a, T: Hash + Eq + Clone, S, A> ChildList<'a, T, S, A> {
    /// The cursor addresses a vertex that exists in a well-formed graph.
    pub open spec fn wf(self) -> bool {
        &&& self.graph.wf()
        &&& self.id.0 < self.graph.vertices@.len()
    }

    /// The child edge ids of the addressed vertex.
    pub open spec fn edge_ids(self) -> Seq<EdgeId> {
        self.graph.vertices@[self.id.0 as int].children@
    }

    /// Returns the number of outgoing edges.
    pub fn len(&self) -> (r: usize)
        requires
            self.wf(),
        ensures
            r == self.edge_ids().len(),
    {
        self.graph.get_vertex(self.id).children.len()
    }

    /// Returns true iff there are no outgoing edges.
    pub fn is_empty(&self) -> (r: bool)
        requires
            self.wf(),
        ensures
            r == (self.edge_ids().len() == 0),
    {
        self.len() == 0
    }

    /// Returns a node handle for the vertex these edges originate from.
    pub fn get_source_node(&self) -> (r: Node<'a, T, S, A>)
        ensures
            r.graph == self.graph,
            r.id == self.id,
    {
        Node { graph: self.graph, id: self.id }
    }

    /// Returns an edge handle for the `i`th edge.
    pub fn get_edge(&self, i: usize) -> (r: Edge<'a, T, S, A>)
        requires
            self.wf(),
            i < self.edge_ids().len(),
        ensures
            r.graph == self.graph,
            r.id == self.edge_ids()[i as int],
            r.wf(),
    {
        proof {
            assert(self.graph.vertex_wf(self.id.0 as int));
        }
        Edge { graph: self.graph, id: self.graph.get_vertex(self.id).children[i] }
    }

    /// Returns an iterator over child edges.
    pub fn iter(&self) -> (r: ChildListIter<'a, T, S, A>)
        ensures
            r.graph == self.graph,
            r.id == self.id,
            r.i == 0,
    {
        ChildListIter { graph: self.graph, id: self.id, i: 0 }
    }
}

/// Iterator over a vertex's child edges, in insertion order. It is finite and
/// forward-only; restart it by deriving a fresh one from the owning node.
pub struct ChildListIter<'a, T: Hash + Eq + Clone, S, A> {
    pub graph: &'a Graph<T, S, A>,
    pub id: VertexId,
    pub i: usize,
}

impl<'a, T: Hash + Eq + Clone, S, A> ChildListIter<'a, T, S, A> {
    /// The cursor addresses a vertex that exists in a well-formed graph.
    pub open spec fn wf(self) -> bool {
        &&& self.graph.wf()
        &&& self.id.0 < self.graph.vertices@.len()
    }

    /// The child edge ids being walked.
    pub open spec fn edge_ids(self) -> Seq<EdgeId> {
        self.graph.vertices@[self.id.0 as int].children@
    }

    /// Returns the next child edge, or `None` when the list is exhausted.
    pub fn next(&mut self) -> (r: Option<Edge<'a, T, S, A>>)
        requires
            old(self).wf(),
        ensures
            final(self).graph == old(self).graph,
            final(self).id == old(self).id,
            if old(self).i < old(self).edge_ids().len() {
                &&& final(self).i == old(self).i + 1
                &&& r matches Some(e) && e.graph == old(self).graph && e.id == old(
                    self,
                ).edge_ids()[old(self).i as int]
            } else {
                &&& final(self).i == old(self).i
                &&& r is None
            },
    {
        let cs = &self.graph.get_vertex(self.id).children;
        if self.i >= cs.len() {
            None
        } else {
            let e = Edge { graph: self.graph, id: cs[self.i] };
            self.i += 1;
            Some(e)
        }
    }

    /// Returns how many edges remain, in the `(lower, upper)` shape that
    /// iterator bounds conventionally use.
    pub fn size_hint(&self) -> (r: (usize, Option<usize>))
        requires
            self.wf(),
        ensures
            ({
                let n = if self.i < self.edge_ids().len() {
                    self.edge_ids().len() - self.i
                } else {
                    0
                };
                r.0 == n && r.1 == Some(r.0)
            }),
    {
        let l = self.graph.get_vertex(self.id).children.len();
        if l <= self.i {
            (0, Some(0))
        } else {
            (l - self.i, Some(l - self.i))
        }
    }
}

/// A traversible list of a vertex's incoming edges.
pub struct ParentList<'a, T: Hash + Eq + Clone, S, A> {
    pub graph: &'a Graph<T, S, A>,
    pub id: VertexId,
}

impl<'a, T: Hash + Eq + Clone, S, A> Clone for ParentList<'a, T, S, A> {
    fn clone(&self) -> (r: Self)
        ensures
            r == *self,
    {
        ParentList { graph: self.graph, id: self.id }
    }
}

impl<'a, T: Hash + Eq + Clone, S, A> ParentList<'a, T, S, A> {
    /// The cursor addresses a vertex that exists in a well-formed graph.
    pub open spec fn wf(self) -> bool {
        &&& self.graph.wf()
        &&& self.id.0 < self.graph.vertices@.len()
    }

    /// The parent edge ids of the addressed vertex.
    pub open spec fn edge_ids(self) -> Seq<EdgeId> {
        self.graph.vertices@[self.id.0 as int].parents@
    }

    /// Returns the number of incoming edges.
    pub fn len(&self) -> (r: usize)
        requires
            self.wf(),
        ensures
            r == self.edge_ids().len(),
    {
        self.graph.get_vertex(self.id).parents.len()
    }

    /// Returns true iff there are no incoming edges.
    pub fn is_empty(&self) -> (r: bool)
        requires
            self.wf(),
        ensures
            r == (self.edge_ids().len() == 0),
    {
        self.len() == 0
    }

    /// Returns a node handle for the vertex these edges terminate on.
    pub fn target_node(&self) -> (r: Node<'a, T, S, A>)
        ensures
            r.graph == self.graph,
            r.id == self.id,
    {
        Node { graph: self.graph, id: self.id }
    }

    /// Returns an edge handle for the `i`th edge.
    pub fn get_edge(&self, i: usize) -> (r: Edge<'a, T, S, A>)
        requires
            self.wf(),
            i < self.edge_ids().len(),
        ensures
            r.graph == self.graph,
            r.id == self.edge_ids()[i as int],
            r.wf(),
    {
        proof {
            assert(self.graph.vertex_wf(self.id.0 as int));
        }
        Edge { graph: self.graph, id: self.graph.get_vertex(self.id).parents[i] }
    }

    /// Returns an iterator over parent edges.
    pub fn iter(&self) -> (r: ParentListIter<'a, T, S, A>)
        ensures
            r.graph == self.graph,
            r.id == self.id,
            r.i == 0,
    {
        ParentListIter { graph: self.graph, id: self.id, i: 0 }
    }
}

/// Iterator over a vertex's parent edges, in insertion order. It is finite
/// and forward-only; restart it by deriving a fresh one from the owning node.
pub struct ParentListIter<'a, T: Hash + Eq + Clone, S, A> {
    pub graph: &'a Graph<T, S, A>,
    pub id: VertexId,
    pub i: usize,
}

impl<'a, T: Hash + Eq + Clone, S, A> ParentListIter<'a, T, S, A> {
    /// The cursor addresses a vertex that exists in a well-formed graph.
    pub open spec fn wf(self) -> bool {
        &&& self.graph.wf()
        &&& self.id.0 < self.graph.vertices@.len()
    }

    /// The parent edge ids being walked.
    pub open spec fn edge_ids(self) -> Seq<EdgeId> {
        self.graph.vertices@[self.id.0 as int].parents@
    }

    /// Returns the next parent edge, or `None` when the list is exhausted.
    pub fn next(&mut self) -> (r: Option<Edge<'a, T, S, A>>)
        requires
            old(self).wf(),
        ensures
            final(self).graph == old(self).graph,
            final(self).id == old(self).id,
            if old(self).i < old(self).edge_ids().len() {
                &&& final(self).i == old(self).i + 1
                &&& r matches Some(e) && e.graph == old(self).graph && e.id == old(
                    self,
                ).edge_ids()[old(self).i as int]
            } else {
                &&& final(self).i == old(self).i
                &&& r is None
            },
    {
        let ps = &self.graph.get_vertex(self.id).parents;
        if self.i >= ps.len() {
            None
        } else {
            let e = Edge { graph: self.graph, id: ps[self.i] };
            self.i += 1;
            Some(e)
        }
    }

    /// Returns how many edges remain, in the `(lower, upper)` shape that
    /// iterator bounds conventionally use.
    pub fn size_hint(&self) -> (r: (usize, Option<usize>))
        requires
            self.wf(),
        ensures
            ({
                let n = if self.i < self.edge_ids().len() {
                    self.edge_ids().len() - self.i
                } else {
                    0
                };
                r.0 == n && r.1 == Some(r.0)
            }),
    {
        let l = self.graph.get_vertex(self.id).parents.len();
        if l <= self.i {
            (0, Some(0))
        } else {
            (l - self.i, Some(l - self.i))
        }
    }
}

/// Immutable handle to a graph edge ("edge handle").
///
/// This zipper-like type enables traversal of a graph along the edge's source
/// and target vertices.
pub struct Edge<'a, T: Hash + Eq + Clone, S, A> {
    pub graph: &'a Graph<T, S, A>,
    pub id: EdgeId,
}

impl<'a, T: Hash + Eq + Clone, S, A> Clone for Edge<'a, T, S, A> {
    fn clone(&self) -> (r: Self)
        ensures
            r == *self,
    {
        Edge { graph: self.graph, id: self.id }
    }
}

impl<'a, T: Hash + Eq + Clone, S, A> Edge<'a, T, S, A> {
    /// The cursor addresses an edge that exists in a well-formed graph.
    pub open spec fn wf(self) -> bool {
        &&& self.graph.wf()
        &&& self.id.0 < self.graph.arcs@.len()
    }

    /// The edge record this cursor addresses.
    pub open spec fn arc(self) -> RawEdge<A> {
        self.graph.arcs@[self.id.0 as int]
    }

    pub(crate) fn new(graph: &'a Graph<T, S, A>, id: EdgeId) -> (r: Self)
        ensures
            r.graph == graph,
            r.id == id,
    {
        Edge { graph, id }
    }

    /// Returns an ID that identifies this edge uniquely within its graph. The
    /// ID may change when the graph is pruned.
    pub fn get_id(&self) -> (r: usize)
        ensures
            r == self.id.0,
    {
        self.id.as_usize()
    }

    /// Returns the data at this edge.
    pub fn get_data(&self) -> (r: &'a A)
        requires
            self.wf(),
        ensures
            *r == self.arc().data,
    {
        &self.graph.get_arc(self.id).data
    }

    /// Returns a node handle for this edge's source vertex.
    pub fn get_source(&self) -> (r: Node<'a, T, S, A>)
        requires
            self.wf(),
        ensures
            r.graph == self.graph,
            r.id == self.arc().source,
            r.wf(),
    {
        proof {
            assert(self.graph.arc_wf(self.id.0 as int));
        }
        Node { graph: self.graph, id: self.graph.get_arc(self.id).source }
    }

    /// Returns a node handle for this edge's target vertex.
    pub fn get_target(&self) -> (r: Node<'a, T, S, A>)
        requires
            self.wf(),
        ensures
            r.graph == self.graph,
            r.id == self.arc().target,
            r.wf(),
    {
        proof {
            assert(self.graph.arc_wf(self.id.0 as int));
        }
        Node { graph: self.graph, id: self.graph.get_arc(self.id).target }
    }
}

} // verus!
