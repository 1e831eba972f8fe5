//! The mathematical model of a graph: a number of vertices and the
//! sequence of its edges in the order of their creation.

use vstd::prelude::*;
use crate::direction::Direction;
use crate::graph::Edge;
use crate::graph::Vertex;

verus! {

/// Holds of the edges that leave `v`.
pub open spec fn leaves(v: Vertex) -> spec_fn(Edge) -> bool {
    |e: Edge| e.source == v
}

/// Holds of the edges that enter `v`.
pub open spec fn enters(v: Vertex) -> spec_fn(Edge) -> bool {
    |e: Edge| e.target == v
}

/// Holds of the edges at `v` in `direction`: those that leave `v` where the
/// direction is outgoing, those that enter it where it is incoming.
pub open spec fn touches(v: Vertex, direction: Direction) -> spec_fn(Edge) -> bool {
    match direction {
        Direction::Outgoing => leaves(v),
        Direction::Incoming => enters(v),
    }
}

/// What a graph is: how many vertices it has, and its edges, oldest first.
pub struct GraphModel {
    pub vertex_count: nat,
    pub edges: Seq<Edge>,
}

impl GraphModel {
    /// The graph without vertices and edges.
    pub open spec fn empty() -> GraphModel {
        GraphModel { vertex_count: 0, edges: Seq::empty() }
    }

    /// Whether `v` is a vertex of this graph.
    pub open spec fn contains_vertex(self, v: Vertex) -> bool {
        v.index < self.vertex_count
    }

    /// Whether `e` is an edge of this graph.
    pub open spec fn contains_edge(self, e: Edge) -> bool {
        e.index < self.edges.len() && self.edges[e.index as int] == e
    }

    /// Edge indices are the positions in the edge sequence, every endpoint
    /// is a vertex of the graph, and both counts fit a machine word.
    pub open spec fn wf(self) -> bool {
        &&& self.vertex_count <= usize::MAX
        &&& self.edges.len() <= usize::MAX
        &&& forall|i: int|
            0 <= i < self.edges.len() ==> {
                &&& (#[trigger] self.edges[i]).index == i
                &&& self.contains_vertex(self.edges[i].source)
                &&& self.contains_vertex(self.edges[i].target)
            }
    }

    /// The vertices in the order of their creation.
    pub open spec fn vertices(self) -> Seq<Vertex> {
        Seq::new(self.vertex_count, |i: int| Vertex { index: i as usize })
    }

    /// The edges whose source is `v`, oldest first.
    pub open spec fn out_edges(self, v: Vertex) -> Seq<Edge> {
        self.edges.filter(leaves(v))
    }

    /// The edges whose target is `v`, oldest first.
    pub open spec fn in_edges(self, v: Vertex) -> Seq<Edge> {
        self.edges.filter(enters(v))
    }

    /// The edges at `v` in the given direction.
    pub open spec fn adjacent_edges(self, v: Vertex, direction: Direction) -> Seq<Edge> {
        match direction {
            Direction::Outgoing => self.out_edges(v),
            Direction::Incoming => self.in_edges(v),
        }
    }

    /// The number of edges at the first `k` vertices in the given direction,
    /// vertex by vertex.
    pub open spec fn degree_sum(self, direction: Direction, k: nat) -> nat
        decreases k,
    {
        if k == 0 {
            0
        } else {
            self.degree_sum(direction, (k - 1) as nat) + self.adjacent_edges(
                Vertex { index: (k - 1) as usize },
                direction,
            ).len()
        }
    }

    /// Whether the edge at position `i` runs from `v` to `w`.
    pub open spec fn joins(self, i: int, v: Vertex, w: Vertex) -> bool {
        0 <= i < self.edges.len() && self.edges[i].source == v && self.edges[i].target == w
    }

    /// Whether some edge runs from `v` to `w`.
    pub open spec fn has_edge(self, v: Vertex, w: Vertex) -> bool {
        exists|i: int| self.joins(i, v, w)
    }

    /// Whether the edges are those between all pairs of distinct vertices,
    /// each pair joined once in each direction: no edge joins a vertex to
    /// itself, no two edges have both ends in common, and from every vertex
    /// an edge runs to every other.
    pub open spec fn is_complete(self) -> bool {
        &&& forall|i: int|
            0 <= i < self.edges.len() ==> (#[trigger] self.edges[i]).source
                != self.edges[i].target
        &&& forall|i: int, j: int|
            0 <= i < j < self.edges.len() && (#[trigger] self.edges[i]).source == (
            #[trigger] self.edges[j]).source ==> self.edges[i].target != self.edges[j].target
        &&& forall|v: Vertex, w: Vertex|
            self.contains_vertex(v) && self.contains_vertex(w) && v != w
                ==> #[trigger] self.has_edge(v, w)
    }

    /// The handle of the vertex that is created next.
    pub open spec fn next_vertex(self) -> Vertex {
        Vertex { index: self.vertex_count as usize }
    }

    /// The graph with one more vertex.
    pub open spec fn add_vertex(self) -> GraphModel {
        GraphModel { vertex_count: self.vertex_count + 1, edges: self.edges }
    }

    /// The edge that is created next, when it runs from `source` to `target`.
    pub open spec fn next_edge(self, source: Vertex, target: Vertex) -> Edge {
        Edge { index: self.edges.len() as usize, source, target }
    }

    /// The graph with one more edge, from `source` to `target`.
    pub open spec fn add_edge(self, source: Vertex, target: Vertex) -> GraphModel {
        GraphModel {
            vertex_count: self.vertex_count,
            edges: self.edges.push(self.next_edge(source, target)),
        }
    }
}

} // verus!
