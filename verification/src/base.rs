//! Dense integer identifiers and raw storage records for graph vertices and
//! edges.
//!
//! Identifiers are plain indices into the owning graph's arenas. They are
//! only meaningful together with the graph they came from, and any pruning
//! operation may reassign them.

use vstd::prelude::*;

verus! {

/// Identifier of an edge: an index into the graph's edge arena.
#[derive(Clone, Copy, Debug, Eq, Hash, Ord, PartialEq, PartialOrd, Structural)]
pub struct EdgeId(pub usize);

impl EdgeId {
    /// Converts an `EdgeId` to a usize that is guaranteed to be unique within
    /// its graph.
    pub fn as_usize(self) -> (r: usize)
        ensures
            r == self.0,
    {
        let EdgeId(x) = self;
        x
    }
}

/// Identifier of a vertex: an index into the graph's vertex arena.
///
/// Within one graph, distinct `VertexId`s address distinct canonical states.
#[derive(Clone, Copy, Debug, Eq, Hash, Ord, PartialEq, PartialOrd, Structural)]
pub struct VertexId(pub usize);

impl VertexId {
    /// Converts a `VertexId` to a usize that is guaranteed to be unique within
    /// its graph.
    pub fn as_usize(self) -> (r: usize)
        ensures
            r == self.0,
    {
        let VertexId(x) = self;
        x
    }
}

impl Default for VertexId {
    fn default() -> (r: Self)
        ensures
            r == VertexId(0usize),
    {
        VertexId(0)
    }
}

/// Raw storage for one directed edge.
#[derive(Clone, Debug, Eq, PartialEq)]
pub struct RawEdge<A> {
    /// Edge data.
    pub data: A,
    /// Source vertex.
    pub source: VertexId,
    /// Target vertex.
    pub target: VertexId,
}

/// Raw storage for one vertex.
#[derive(Clone, Debug, Eq, PartialEq)]
pub struct RawVertex<S> {
    /// Vertex data.
    pub data: S,
    /// Edges pointing into this vertex.
    pub parents: Vec<EdgeId>,
    /// Edges pointing out of this vertex.
    pub children: Vec<EdgeId>,
}

} // verus!
