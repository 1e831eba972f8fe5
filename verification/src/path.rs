//! Walks: edges that follow one another.

use vstd::prelude::*;
use crate::error::Error;
use crate::graph::Edge;
use crate::graph::Vertex;

verus! {

/// What a path is: the vertex at which it starts, and its edges in the
/// order in which they are walked.
pub struct PathModel {
    pub source: Vertex,
    pub edges: Seq<Edge>,
}

impl PathModel {
    /// The path without edges that starts, and ends, at `source`.
    pub open spec fn empty(source: Vertex) -> PathModel {
        PathModel { source, edges: Seq::empty() }
    }

    /// The edges form a walk from `source`: the first edge leaves `source`,
    /// and each later edge leaves the target of the edge before it.
    pub open spec fn wf(self) -> bool {
        &&& self.edges.len() > 0 ==> self.edges[0].source == self.source
        &&& forall|i: int|
            0 < i < self.edges.len() ==> (#[trigger] self.edges[i]).source == self.edges[i
                - 1].target
    }

    /// The vertex at which the path ends.
    pub open spec fn target(self) -> Vertex {
        if self.edges.len() == 0 {
            self.source
        } else {
            self.edges.last().target
        }
    }

    /// Whether `edge` can follow the last edge of the path.
    pub open spec fn can_append(self, edge: Edge) -> bool {
        edge.source == self.target()
    }

    /// Whether `edge` can come before the first edge of the path.
    pub open spec fn can_prepend(self, edge: Edge) -> bool {
        edge.target == self.source
    }

    /// The path with `edge` after its last edge.
    pub open spec fn append(self, edge: Edge) -> PathModel {
        PathModel { source: self.source, edges: self.edges.push(edge) }
    }

    /// The path with `edge` before its first edge, which starts at the
    /// source of `edge`.
    pub open spec fn prepend(self, edge: Edge) -> PathModel {
        PathModel { source: edge.source, edges: seq![edge] + self.edges }
    }
}

/// A walk through a graph, grown one edge at a time at either end.
pub struct Path {
    source: Vertex,
    edges: Vec<Edge>,
}

impl View for Path {
    type V = PathModel;

    closed spec fn view(&self) -> PathModel {
        PathModel { source: self.source, edges: self.edges@ }
    }
}

impl Path {
    /// The path's invariant: its edges form a walk from its source.
    pub open spec fn wf(&self) -> bool {
        self@.wf()
    }

    /// Creates the path without edges that starts at `source`.
    pub fn new(source: Vertex) -> (p: Path)
        ensures
            p.wf(),
            p@ == PathModel::empty(source),
    {
        Path { source, edges: Vec::new() }
    }

    /// Returns the vertex at which the path starts.
    pub fn source(&self) -> (v: Vertex)
        ensures
            v == self@.source,
    {
        self.source
    }

    /// Returns the vertex at which the path ends: the target of its last
    /// edge, or its source where it has no edge.
    pub fn target(&self) -> (v: Vertex)
        ensures
            v == self@.target(),
    {
        match self.edges.last() {
            None => self.source,
            Some(last_edge) => last_edge.target,
        }
    }

    /// Returns the edges of the path in the order in which they are walked.
    pub fn edges(&self) -> (edges: &Vec<Edge>)
        ensures
            edges@ == self@.edges,
    {
        &self.edges
    }

    /// Puts `edge` after the last edge of the path. The edge must leave the
    /// vertex at which the path ends; otherwise the path is left as it was
    /// and the error names that vertex and the edge.
    pub fn append(&mut self, edge: Edge) -> (r: Result<(), Error>)
        requires
            old(self).wf(),
        ensures
            final(self).wf(),
            match r {
                Ok(()) => old(self)@.can_append(edge) && final(self)@ == old(self)@.append(edge),
                Err(e) => {
                    &&& !old(self)@.can_append(edge)
                    &&& final(self)@ == old(self)@
                    &&& e == (Error::Discontinuous { expected: old(self)@.target(), edge })
                },
            },
    {
        match self.edges.last() {
            None => if self.source != edge.source {
                return Err(Error::Discontinuous { expected: self.source, edge });
            },
            Some(last_edge) => if last_edge.target != edge.source {
                return Err(Error::Discontinuous { expected: last_edge.target, edge });
            },
        }

        self.edges.push(edge);
        Ok(())
    }

    /// Puts `edge` before the first edge of the path, which then starts at
    /// the source of `edge`. The edge must enter the vertex at which the
    /// path starts; otherwise the path is left as it was and the error names
    /// that vertex and the edge.
    pub fn prepend(&mut self, edge: Edge) -> (r: Result<(), Error>)
        requires
            old(self).wf(),
        ensures
            final(self).wf(),
            match r {
                Ok(()) => old(self)@.can_prepend(edge) && final(self)@ == old(self)@.prepend(edge),
                Err(e) => {
                    &&& !old(self)@.can_prepend(edge)
                    &&& final(self)@ == old(self)@
                    &&& e == (Error::Discontinuous { expected: old(self)@.source, edge })
                },
            },
    {
        if self.source != edge.target {
            return Err(Error::Discontinuous { expected: self.source, edge });
        }
        self.source = edge.source;
        self.edges.insert(0, edge);
        assert(self.edges@ =~= seq![edge] + old(self).edges@);
        Ok(())
    }
}

/// The path grown from the empty path at `source` by putting each of
/// `edges`, first to last, after the edges before it.
pub open spec fn appended(source: Vertex, edges: Seq<Edge>) -> PathModel
    decreases edges.len(),
{
    if edges.len() == 0 {
        PathModel::empty(source)
    } else {
        appended(source, edges.drop_last()).append(edges.last())
    }
}

/// The path grown from the empty path at `target` by putting each of
/// `edges`, last to first, before the edges after it.
pub open spec fn prepended(target: Vertex, edges: Seq<Edge>) -> PathModel
    decreases edges.len(),
{
    if edges.len() == 0 {
        PathModel::empty(target)
    } else {
        prepended(target, edges.drop_first()).prepend(edges.first())
    }
}

/// An edge that leaves the end of a walk can be appended: the result is a
/// walk from the same source that is one edge longer and ends at the
/// target of that edge.
pub proof fn lemma_append(p: PathModel, edge: Edge)
    requires
        p.wf(),
        p.can_append(edge),
    ensures
        p.append(edge).wf(),
        p.append(edge).source == p.source,
        p.append(edge).target() == edge.target,
        p.append(edge).edges.len() == p.edges.len() + 1,
        p.append(edge).edges.last() == edge,
{
}

/// An edge that enters the start of a walk can be prepended: the result is
/// a walk to the same target that is one edge longer and starts at the
/// source of that edge.
pub proof fn lemma_prepend(p: PathModel, edge: Edge)
    requires
        p.wf(),
        p.can_prepend(edge),
    ensures
        p.prepend(edge).wf(),
        p.prepend(edge).source == edge.source,
        p.prepend(edge).target() == p.target(),
        p.prepend(edge).edges.len() == p.edges.len() + 1,
        p.prepend(edge).edges.first() == edge,
{
    let q = p.prepend(edge);
    assert forall|i: int| 0 < i < q.edges.len() implies (#[trigger] q.edges[i]).source
        == q.edges[i - 1].target by {
        if i > 1 {
            assert(q.edges[i] == p.edges[i - 1]);
            assert(q.edges[i - 1] == p.edges[i - 2]);
        }
    }
}

/// Appending edges one after the other yields those edges, in that order,
/// from the source at which the path began.
proof fn lemma_appended(source: Vertex, edges: Seq<Edge>)
    ensures
        appended(source, edges) == (PathModel { source, edges }),
    decreases edges.len(),
{
    if edges.len() > 0 {
        lemma_appended(source, edges.drop_last());
        assert(edges.drop_last().push(edges.last()) =~= edges);
    } else {
        assert(edges =~= Seq::empty());
    }
}

/// Prepending edges, last to first, yields those edges in their order,
/// from the source of the first.
proof fn lemma_prepended(target: Vertex, edges: Seq<Edge>)
    ensures
        prepended(target, edges).edges == edges,
        prepended(target, edges).source == if edges.len() == 0 {
            target
        } else {
            edges.first().source
        },
    decreases edges.len(),
{
    if edges.len() > 0 {
        lemma_prepended(target, edges.drop_first());
        assert(seq![edges.first()] + edges.drop_first() =~= edges);
    } else {
        assert(edges =~= Seq::empty());
    }
}

/// Every walk can be built from either end. Appending its edges, first to
/// last, to the empty path at its source is allowed at every step and
/// yields the walk; so does prepending them, last to first, to the empty
/// path at its target.
pub proof fn lemma_walk_from_either_end(p: PathModel)
    requires
        p.wf(),
    ensures
        appended(p.source, p.edges) == p,
        prepended(p.target(), p.edges) == p,
        forall|k: int|
            0 <= k < p.edges.len() ==> #[trigger] appended(p.source, p.edges.take(k)).can_append(
                p.edges[k],
            ),
        forall|k: int|
            0 <= k < p.edges.len() ==> #[trigger] prepended(
                p.target(),
                p.edges.skip(k + 1),
            ).can_prepend(p.edges[k]),
{
    lemma_appended(p.source, p.edges);
    lemma_prepended(p.target(), p.edges);
    assert forall|k: int| 0 <= k < p.edges.len() implies #[trigger] appended(
        p.source,
        p.edges.take(k),
    ).can_append(p.edges[k]) by {
        lemma_appended(p.source, p.edges.take(k));
        if k > 0 {
            assert(p.edges.take(k).last() == p.edges[k - 1]);
        }
    }
    assert forall|k: int| 0 <= k < p.edges.len() implies #[trigger] prepended(
        p.target(),
        p.edges.skip(k + 1),
    ).can_prepend(p.edges[k]) by {
        lemma_prepended(p.target(), p.edges.skip(k + 1));
        if k + 1 < p.edges.len() {
            assert(p.edges.skip(k + 1).first() == p.edges[k + 1]);
        }
    }
}

} // verus!
