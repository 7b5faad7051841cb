//! Tracking of graph position during local search.
//!
//! A [`Stack`] records the path that was followed while walking a graph: a
//! head vertex plus the sequence of edges traversed to reach it. Local search
//! advances by [`Stack::push`], which consults a caller-supplied selection
//! function, backtracks by [`Stack::pop`], and replays the recorded path by
//! [`Stack::iter`] or [`Stack::item`].

use vstd::prelude::*;

use std::hash::Hash;

use crate::base::{EdgeId, VertexId};
use crate::mutators::MutNode;
use crate::nav::{Edge, Node};
use crate::Graph;

verus! {

/// Errors that may arise during search.
#[derive(Debug)]
pub enum SearchError<E> {
    /// A search operation selected a child index that was out of bounds.
    ChildBounds {
        /// The index of the child that was requested.
        requested_index: usize,
        /// The actual number of children (which `requested_index` exceeds).
        child_count: usize,
    },
    /// A search operation selected a parent index that was out of bounds.
    ParentBounds {
        /// The index of the parent that was requested.
        requested_index: usize,
        /// The actual number of parents (which `requested_index` exceeds).
        parent_count: usize,
    },
    /// The caller-supplied selection function itself failed; its error is
    /// re-surfaced verbatim.
    SelectionError(E),
}

/// Indicates which edge of a vertex to traverse, by 0-based index.
pub enum Traversal {
    /// Traverse the given child.
    Child(usize),
    /// Traverse the given parent.
    Parent(usize),
}

/// Tracks the path through a graph that is followed when performing local
/// search: a head vertex plus the edges traversed so far, oldest first. Each
/// history entry records the edge together with the vertex that was the head
/// when the edge was traversed, so that backtracking can restore it.
pub struct Stack<'a, T: Hash + Eq + Clone, S, A> {
    /// The graph being searched.
    pub graph: &'a mut Graph<T, S, A>,
    /// The traversed edges, each paired with the head it was traversed from.
    pub path: Vec<(VertexId, EdgeId)>,
    /// The current head vertex.
    pub head: VertexId,
}

impl<'a, T: Hash + Eq + Clone, S, A> Stack<'a, T, S, A> {
    /// The graph as seen through this stack.
    pub open spec fn cur(self) -> Graph<T, S, A> {
        mut_ref_current(self.graph)
    }

    /// The head is a vertex of a well-formed graph, and every recorded entry
    /// names an edge and a prior head that exist.
    pub open spec fn wf(self) -> bool {
        &&& self.cur().wf()
        &&& self.head.0 < self.cur().vertices@.len()
        &&& forall|i: int|
            0 <= i < self.path@.len() ==> (#[trigger] self.path@[i]).1.0
                < self.cur().arcs@.len() && self.path@[i].0.0 < self.cur().vertices@.len()
    }

    /// Creates a new `Stack` positioned on the given node, with an empty
    /// history.
    pub fn new(node: MutNode<'a, T, S, A>) -> (r: Self)
        ensures
            r.cur() == node.cur(),
            mut_ref_future(r.graph) == mut_ref_future(node.graph),
            r.head == node.id,
            r.path@.len() == 0,
    {
        Stack { graph: node.graph, path: Vec::new(), head: node.id }
    }

    /// Returns the number of elements in the path. Since a path always has a
    /// head, there is always at least 1 element.
    pub fn len(&self) -> (r: usize)
        requires
            self.path@.len() < usize::MAX,
        ensures
            r == self.path@.len() + 1,
    {
        self.path.len() + 1
    }

    /// Removes the most recently traversed edge from the path, if any,
    /// returning a handle for it and restoring the head to the vertex it had
    /// before that edge was traversed.
    pub fn pop<'s>(&'s mut self) -> (r: Option<Edge<'s, T, S, A>>)
        requires
            old(self).wf(),
        ensures
            final(self).cur() == old(self).cur(),
            mut_ref_future(final(self).graph) == mut_ref_future(old(self).graph),
            final(self).wf(),
            match r {
                Some(e) => {
                    &&& old(self).path@.len() > 0
                    &&& e.id == old(self).path@.last().1
                    &&& *e.graph == old(self).cur()
                    &&& e.wf()
                    &&& final(self).path@ == old(self).path@.drop_last()
                    &&& final(self).head == old(self).path@.last().0
                },
                None => {
                    &&& old(self).path@.len() == 0
                    &&& final(self).path@ == old(self).path@
                    &&& final(self).head == old(self).head
                },
            },
    {
        match self.path.pop() {
            Some((prior, edge_id)) => {
                self.head = prior;
                Some(Edge::new(&*self.graph, edge_id))
            },
            None => None,
        }
    }

    /// Returns a read-only view of the head element.
    pub fn head<'s>(&'s self) -> (r: Node<'s, T, S, A>)
        ensures
            *r.graph == self.cur(),
            r.id == self.head,
    {
        Node::new(&*self.graph, self.head)
    }

    /// Consumes the path and returns a mutable view of its head.
    pub fn to_head(self) -> (r: MutNode<'a, T, S, A>)
        ensures
            r.cur() == self.cur(),
            mut_ref_future(r.graph) == mut_ref_future(self.graph),
            r.id == self.head,
    {
        MutNode { graph: self.graph, id: self.head }
    }

    /// Grows the path by consulting a function of the current head. If `f`
    /// returns `Ok(Some(Traversal::Child(i)))`, the `i`th child edge of the
    /// head is pushed onto the path and the head moves to its target; for
    /// `Ok(Some(Traversal::Parent(i)))`, the `i`th parent edge is pushed and
    /// the head moves to its source. An in-bounds traversal returns the edge
    /// followed; an out-of-bounds index is reported together with the actual
    /// count. `Ok(None)` declines to move, and `Err` from `f` is passed
    /// through as a `SelectionError`.
    pub fn push<'s, F: FnOnce(&Node<'s, T, S, A>) -> Result<Option<Traversal>, E>, E>(
        &'s mut self,
        f: F,
    ) -> (r: Result<Option<Edge<'s, T, S, A>>, SearchError<E>>)
        requires
            old(self).wf(),
            old(self).path@.len() < usize::MAX,
            forall|n: Node<'s, T, S, A>| #[trigger] f.requires((&n,)),
        ensures
            final(self).cur() == old(self).cur(),
            mut_ref_future(final(self).graph) == mut_ref_future(old(self).graph),
            final(self).wf(),
            ({
                let g = old(self).cur();
                let hv = old(self).head.0 as int;
                let children = g.vertices@[hv].children@;
                let parents = g.vertices@[hv].parents@;
                exists|n: Node<'s, T, S, A>, fret: Result<Option<Traversal>, E>|
                    {
                        &&& #[trigger] f.ensures((&n,), fret)
                        &&& *n.graph == g
                        &&& n.id == old(self).head
                        &&& match r {
                            Ok(Some(e)) => {
                                &&& *e.graph == g
                                &&& e.wf()
                                &&& final(self).path@ == old(self).path@.push(
                                    (old(self).head, e.id),
                                )
                                &&& match fret {
                                    Ok(Some(Traversal::Child(i))) => {
                                        &&& (i as int) < children.len()
                                        &&& e.id == children[i as int]
                                        &&& final(self).head == g.arcs@[e.id.0 as int].target
                                    },
                                    Ok(Some(Traversal::Parent(i))) => {
                                        &&& (i as int) < parents.len()
                                        &&& e.id == parents[i as int]
                                        &&& final(self).head == g.arcs@[e.id.0 as int].source
                                    },
                                    _ => false,
                                }
                            },
                            Ok(None) => {
                                &&& fret == Ok::<Option<Traversal>, E>(None)
                                &&& final(self).path@ == old(self).path@
                                &&& final(self).head == old(self).head
                            },
                            Err(SearchError::ChildBounds { requested_index, child_count }) => {
                                &&& fret == Ok::<Option<Traversal>, E>(
                                    Some(Traversal::Child(requested_index)),
                                )
                                &&& child_count == children.len()
                                &&& requested_index >= child_count
                                &&& final(self).path@ == old(self).path@
                                &&& final(self).head == old(self).head
                            },
                            Err(SearchError::ParentBounds { requested_index, parent_count }) => {
                                &&& fret == Ok::<Option<Traversal>, E>(
                                    Some(Traversal::Parent(requested_index)),
                                )
                                &&& parent_count == parents.len()
                                &&& requested_index >= parent_count
                                &&& final(self).path@ == old(self).path@
                                &&& final(self).head == old(self).head
                            },
                            Err(SearchError::SelectionError(err)) => {
                                &&& fret matches Err(e2) && e2 == err
                                &&& final(self).path@ == old(self).path@
                                &&& final(self).head == old(self).head
                            },
                        }
                    }
            }),
    {
        let g_ref: &'s Graph<T, S, A> = &*self.graph;
        let node = Node::new(g_ref, self.head);
        let res = f(&node);
        match res {
            Ok(Some(Traversal::Child(i))) => {
                let children = node.get_child_list();
                if i >= children.len() {
                    Err(
                        SearchError::ChildBounds {
                            requested_index: i,
                            child_count: children.len(),
                        },
                    )
                } else {
                    let child = children.get_edge(i);
                    proof {
                        assert(self.cur().arc_wf(child.id.0 as int));
                    }
                    let prior = self.head;
                    self.path.push((prior, child.id));
                    self.head = child.get_target().id;
                    Ok(Some(child))
                }
            },
            Ok(Some(Traversal::Parent(i))) => {
                let parents = node.get_parent_list();
                if i >= parents.len() {
                    Err(
                        SearchError::ParentBounds {
                            requested_index: i,
                            parent_count: parents.len(),
                        },
                    )
                } else {
                    let parent = parents.get_edge(i);
                    proof {
                        assert(self.cur().arc_wf(parent.id.0 as int));
                    }
                    let prior = self.head;
                    self.path.push((prior, parent.id));
                    self.head = parent.get_source().id;
                    Ok(Some(parent))
                }
            },
            Ok(None) => Ok(None),
            Err(e) => Err(SearchError::SelectionError(e)),
        }
    }

    /// Returns an iterator over path elements, in order of traversal: the
    /// last element of the iteration is the path head.
    pub fn iter<'s>(&'s self) -> (r: StackIter<'a, 's, T, S, A>)
        ensures
            r.path == self,
            r.position == 0,
    {
        StackIter { path: self, position: 0 }
    }

    /// Returns the `i`th element of the path: a traversed edge for `i` below
    /// the history length, the head for `i` equal to it, nothing beyond.
    pub fn item<'s>(&'s self, i: usize) -> (r: Option<StackItem<'s, T, S, A>>)
        requires
            self.wf(),
        ensures
            match r {
                Some(StackItem::Item(e)) => {
                    &&& (i as int) < self.path@.len()
                    &&& e.id == self.path@[i as int].1
                    &&& *e.graph == self.cur()
                    &&& e.wf()
                },
                Some(StackItem::Head(n)) => {
                    &&& i == self.path@.len()
                    &&& n.id == self.head
                    &&& *n.graph == self.cur()
                    &&& n.wf()
                },
                None => i > self.path@.len(),
            },
    {
        if i == self.path.len() {
            Some(StackItem::Head(Node::new(&*self.graph, self.head)))
        } else if i < self.path.len() {
            Some(StackItem::Item(Edge::new(&*self.graph, self.path[i].1)))
        } else {
            None
        }
    }
}

/// Iterates over the elements of a search path, in the order in which they
/// were traversed, ending with the head. It is finite and forward-only;
/// restart by deriving a fresh one from the stack.
pub struct StackIter<'a, 's, T: Hash + Eq + Clone, S, A> {
    /// The path being iterated over.
    pub path: &'s Stack<'a, T, S, A>,
    /// The position through the path.
    pub position: usize,
}

/// Sum type for path elements. All elements except the head are edges.
pub enum StackItem<'x, T: Hash + Eq + Clone, S, A> {
    /// A traversed edge.
    Item(Edge<'x, T, S, A>),
    /// The path head.
    Head(Node<'x, T, S, A>),
}

impl<'a, 's, T: Hash + Eq + Clone, S, A> StackIter<'a, 's, T, S, A> {
    /// Returns the next path element, or `None` when the path, head
    /// included, has been walked.
    pub fn next(&mut self) -> (r: Option<StackItem<'s, T, S, A>>)
        requires
            old(self).path.wf(),
            old(self).path.path@.len() < usize::MAX,
        ensures
            final(self).path == old(self).path,
            match r {
                Some(StackItem::Item(e)) => {
                    &&& (old(self).position as int) < old(self).path.path@.len()
                    &&& e.id == old(self).path.path@[old(self).position as int].1
                    &&& *e.graph == old(self).path.cur()
                    &&& final(self).position == old(self).position + 1
                },
                Some(StackItem::Head(n)) => {
                    &&& old(self).position == old(self).path.path@.len()
                    &&& n.id == old(self).path.head
                    &&& *n.graph == old(self).path.cur()
                    &&& final(self).position == old(self).position + 1
                },
                None => {
                    &&& old(self).position > old(self).path.path@.len()
                    &&& final(self).position == old(self).position
                },
            },
    {
        if self.position <= self.path.path.len() {
            let i = self.position;
            self.position += 1;
            self.path.item(i)
        } else {
            None
        }
    }

    /// Returns how many path elements remain, in the `(lower, upper)` shape
    /// that iterator bounds conventionally use.
    pub fn size_hint(&self) -> (r: (usize, Option<usize>))
        requires
            self.path.path@.len() < usize::MAX,
        ensures
            ({
                let n = if self.position <= self.path.path@.len() {
                    self.path.path@.len() + 1 - self.position
                } else {
                    0
                };
                r.0 == n && r.1 == Some(r.0)
            }),
    {
        let len = self.path.path.len() + 1;
        if self.position <= self.path.path.len() {
            (len - self.position, Some(len - self.position))
        } else {
            (0, Some(0))
        }
    }
}

} // verus!
