//! Vertices, edges and the graph that owns them.

use vstd::prelude::*;
use vstd::std_specs::iter::IteratorSpec;
use vstd::string::StringExecFns;
use crate::direction::Direction;
use crate::error::Error;
use crate::laws::lemma_add_edge;
use crate::laws::lemma_add_vertex;
use crate::model::GraphModel;
use crate::text::decimal;
use crate::text::push_decimal;

verus! {

/// A vertex handle: the position of the vertex in the order of creation.
#[derive(Debug, Clone, Copy, PartialEq, Eq, Structural)]
pub struct Vertex {
    pub index: usize,
}

impl Vertex {
    /// The handle of the first vertex of any graph.
    pub fn new() -> (v: Vertex)
        ensures
            v.index == 0,
    {
        Vertex { index: 0 }
    }

    /// The handle of the vertex created at position `index`.
    pub fn from_index(index: usize) -> (v: Vertex)
        ensures
            v.index == index,
    {
        Vertex { index }
    }

    /// The text of a vertex, which is its index in decimal.
    pub open spec fn text(self) -> Seq<char> {
        decimal(self.index as nat)
    }

    /// Returns the index of the vertex as decimal text.
    pub fn to_string(&self) -> (s: String)
        ensures
            s@ == self.text(),
    {
        let mut s = String::new();
        push_decimal(&mut s, self.index);
        s
    }
}

/// An edge handle: the position of the edge in the order of creation,
/// together with the two vertices that it joins.
#[derive(Debug, Clone, Copy, PartialEq, Eq, Structural)]
pub struct Edge {
    pub index: usize,
    pub source: Vertex,
    pub target: Vertex,
}

impl Edge {
    /// The vertex reached by following the edge in `direction`.
    pub open spec fn spec_endpoint(self, direction: Direction) -> Vertex {
        match direction {
            Direction::Outgoing => self.target,
            Direction::Incoming => self.source,
        }
    }

    /// Returns the vertex reached by following the edge in `direction`:
    /// the target of an outgoing edge, the source of an incoming one.
    pub fn endpoint(&self, direction: Direction) -> (v: Vertex)
        ensures
            v == self.spec_endpoint(direction),
    {
        match direction {
            Direction::Outgoing => self.target,
            Direction::Incoming => self.source,
        }
    }

    /// The text of an edge: source, an arrow, target.
    pub open spec fn text(self) -> Seq<char> {
        self.source.text() + " -> "@ + self.target.text()
    }

    /// Returns the edge as text, `<source> -> <target>`.
    pub fn to_string(&self) -> (s: String)
        ensures
            s@ == self.text(),
    {
        let mut s = String::new();
        push_decimal(&mut s, self.source.index);
        s.append(" -> ");
        push_decimal(&mut s, self.target.index);
        assert(s@ =~= self.text());
        s
    }
}

/// A directed graph that only grows: vertices and edges are added, never
/// removed, so handles stay valid for the life of the graph.
pub struct Graph {
    num_vertices: usize,
    edges: Vec<Edge>,
    outgoing: Vec<Vec<Edge>>,
    incoming: Vec<Vec<Edge>>,
}

impl View for Graph {
    type V = GraphModel;

    closed spec fn view(&self) -> GraphModel {
        GraphModel { vertex_count: self.num_vertices as nat, edges: self.edges@ }
    }
}

impl Graph {
    /// The graph's invariant: its model is well formed, and the adjacency
    /// list kept for each vertex holds exactly the edges that leave it, or
    /// enter it, in the order of their creation.
    pub closed spec fn wf(&self) -> bool {
        &&& self@.wf()
        &&& self.outgoing@.len() == self.num_vertices
        &&& self.incoming@.len() == self.num_vertices
        &&& forall|i: int|
            0 <= i < self.num_vertices ==> (#[trigger] self.outgoing@[i])@ == self@.out_edges(
                Vertex { index: i as usize },
            )
        &&& forall|i: int|
            0 <= i < self.num_vertices ==> (#[trigger] self.incoming@[i])@ == self@.in_edges(
                Vertex { index: i as usize },
            )
    }

    /// A well-formed graph has a well-formed model.
    pub proof fn lemma_model_wf(&self)
        requires
            self.wf(),
        ensures
            self@.wf(),
    {
    }

    /// Creates the empty graph.
    pub fn new() -> (g: Graph)
        ensures
            g.wf(),
            g@ == GraphModel::empty(),
    {
        Graph { num_vertices: 0, edges: Vec::new(), outgoing: Vec::new(), incoming: Vec::new() }
    }

    /// Returns the number of vertices.
    pub fn num_vertices(&self) -> (n: usize)
        ensures
            n == self@.vertex_count,
    {
        self.num_vertices
    }

    /// Returns the number of edges.
    pub fn num_edges(&self) -> (n: usize)
        ensures
            n == self@.edges.len(),
    {
        self.edges.len()
    }

    /// Adds a vertex and returns its handle, whose index is the number of
    /// vertices that the graph had before.
    pub fn add_vertex(&mut self) -> (v: Vertex)
        requires
            old(self).wf(),
        ensures
            final(self).wf(),
            final(self)@ == old(self)@.add_vertex(),
            v == old(self)@.next_vertex(),
            v.index == old(self)@.vertex_count,
            final(self)@.out_edges(v).len() == 0,
            final(self)@.in_edges(v).len() == 0,
    {
        let s = self.num_vertices;
        self.outgoing.push(Vec::new());
        self.incoming.push(Vec::new());
        assert(self.outgoing.len() == s + 1);
        self.num_vertices = s + 1;
        let v = Vertex::from_index(s);
        proof {
            lemma_add_vertex(old(self)@);
            assert(self.outgoing@[s as int]@ =~= self@.out_edges(v));
            assert(self.incoming@[s as int]@ =~= self@.in_edges(v));
        }
        v
    }

    /// Adds an edge from `source` to `target`, both of which must be
    /// vertices of this graph, and returns its handle; the two may be the
    /// same vertex. With a vertex that the graph does not have, the graph is
    /// left as it was and the error names that vertex (`source` where both
    /// are unknown).
    pub fn add_edge(&mut self, source: &Vertex, target: &Vertex) -> (r: Result<Edge, Error>)
        requires
            old(self).wf(),
        ensures
            final(self).wf(),
            match r {
                Ok(edge) => {
                    &&& old(self)@.contains_vertex(*source)
                    &&& old(self)@.contains_vertex(*target)
                    &&& edge == old(self)@.next_edge(*source, *target)
                    &&& edge.index == old(self)@.edges.len()
                    &&& final(self)@ == old(self)@.add_edge(*source, *target)
                    &&& final(self)@.out_edges(*source) == old(self)@.out_edges(*source).push(edge)
                    &&& final(self)@.in_edges(*target) == old(self)@.in_edges(*target).push(edge)
                },
                Err(e) => {
                    &&& !(old(self)@.contains_vertex(*source) && old(self)@.contains_vertex(
                        *target,
                    ))
                    &&& final(self)@ == old(self)@
                    &&& e == (Error::InvalidVertex {
                        vertex: if old(self)@.contains_vertex(*source) {
                            *target
                        } else {
                            *source
                        },
                    })
                },
            },
    {
        if source.index >= self.num_vertices {
            return Err(Error::InvalidVertex { vertex: *source });
        }
        if target.index >= self.num_vertices {
            return Err(Error::InvalidVertex { vertex: *target });
        }
        let edge = Edge { index: self.edges.len(), source: *source, target: *target };
        self.outgoing[source.index].push(edge);
        self.incoming[target.index].push(edge);
        self.edges.push(edge);
        proof {
            assert(self.edges.len() == old(self).edges.len() + 1);
            lemma_add_edge(old(self)@, *source, *target);
        }
        Ok(edge)
    }

    /// Returns the vertices in the order of their creation, one by one.
    pub fn vertices(&self) -> (it: VertexIt<'_>)
        ensures
            it.remaining() == self@.vertices(),
            it.decrease() is Some,
            it.initial_value_relation(&it),
    {
        let it = VertexIt { curr: Vertex::new(), graph: self };
        assert(it.remaining() =~= self@.vertices());
        it
    }

    /// Returns the edges in the order of their creation, one by one.
    pub fn edges(&self) -> (it: std::slice::Iter<'_, Edge>)
        ensures
            it.remaining() == self@.edges.as_ref(),
            it.decrease() is Some,
            it.initial_value_relation(&it),
    {
        self.edges.iter()
    }

    /// Returns the edges that leave `vertex`, in the order of their
    /// creation, or an error where the graph has no such vertex.
    pub fn out_edges(&self, vertex: Vertex) -> (r: Result<std::slice::Iter<'_, Edge>, Error>)
        requires
            self.wf(),
        ensures
            match r {
                Ok(it) => {
                    &&& self@.contains_vertex(vertex)
                    &&& it.remaining() == self@.out_edges(vertex).as_ref()
                    &&& it.decrease() is Some
                    &&& it.initial_value_relation(&it)
                },
                Err(e) => {
                    &&& !self@.contains_vertex(vertex)
                    &&& e == (Error::InvalidVertex { vertex })
                },
            },
    {
        if vertex.index >= self.num_vertices {
            return Err(Error::InvalidVertex { vertex });
        }
        Ok(self.outgoing[vertex.index].iter())
    }

    /// Returns the edges that enter `vertex`, in the order of their
    /// creation, or an error where the graph has no such vertex.
    pub fn in_edges(&self, vertex: Vertex) -> (r: Result<std::slice::Iter<'_, Edge>, Error>)
        requires
            self.wf(),
        ensures
            match r {
                Ok(it) => {
                    &&& self@.contains_vertex(vertex)
                    &&& it.remaining() == self@.in_edges(vertex).as_ref()
                    &&& it.decrease() is Some
                    &&& it.initial_value_relation(&it)
                },
                Err(e) => {
                    &&& !self@.contains_vertex(vertex)
                    &&& e == (Error::InvalidVertex { vertex })
                },
            },
    {
        if vertex.index >= self.num_vertices {
            return Err(Error::InvalidVertex { vertex });
        }
        Ok(self.incoming[vertex.index].iter())
    }

    /// Returns the edges at `vertex` in the given direction: those that
    /// leave it for `Outgoing`, those that enter it for `Incoming`.
    pub fn adjacent_edges(&self, vertex: Vertex, direction: Direction) -> (r: Result<
        std::slice::Iter<'_, Edge>,
        Error,
    >)
        requires
            self.wf(),
        ensures
            match r {
                Ok(it) => {
                    &&& self@.contains_vertex(vertex)
                    &&& it.remaining() == self@.adjacent_edges(vertex, direction).as_ref()
                    &&& it.decrease() is Some
                    &&& it.initial_value_relation(&it)
                },
                Err(e) => {
                    &&& !self@.contains_vertex(vertex)
                    &&& e == (Error::InvalidVertex { vertex })
                },
            },
    {
        match direction {
            Direction::Outgoing => self.out_edges(vertex),
            Direction::Incoming => self.in_edges(vertex),
        }
    }
}

/// The vertices of a graph, from a current one to the last.
pub struct VertexIt<'a> {
    curr: Vertex,
    graph: &'a Graph,
}

impl<'a> VertexIt<'a> {
    /// The vertices from the current one on.
    pub closed spec fn rest(&self) -> Seq<Vertex> {
        if self.curr.index <= self.graph.num_vertices {
            Seq::new(
                (self.graph.num_vertices - self.curr.index) as nat,
                |i: int| Vertex { index: (self.curr.index + i) as usize },
            )
        } else {
            Seq::empty()
        }
    }
}

impl<'a> Iterator for VertexIt<'a> {
    type Item = Vertex;

    /// Returns the current vertex and moves to the one after it, or `None`
    /// once every vertex has been returned.
    fn next(&mut self) -> (ret: Option<Vertex>) {
        let curr = self.curr;
        if curr.index >= self.graph.num_vertices {
            None
        } else {
            self.curr = Vertex::from_index(curr.index + 1);
            assert(self.rest() =~= old(self).rest().drop_first());
            Some(curr)
        }
    }
}

impl<'a> vstd::std_specs::iter::IteratorSpecImpl for VertexIt<'a> {
    open spec fn obeys_prophetic_iter_laws(&self) -> bool {
        true
    }

    closed spec fn remaining(&self) -> Seq<Vertex> {
        self.rest()
    }

    closed spec fn will_return_none(&self) -> bool {
        true
    }

    closed spec fn decrease(&self) -> Option<nat> {
        if self.curr.index <= self.graph.num_vertices {
            Some((self.graph.num_vertices - self.curr.index) as nat)
        } else {
            Some(0nat)
        }
    }

    closed spec fn initial_value_relation(&self, init: &Self) -> bool {
        self.curr == init.curr && self.graph@ == init.graph@
    }

    closed spec fn peek(&self, index: int) -> Option<Vertex> {
        if 0 <= index && self.curr.index + index < self.graph.num_vertices {
            Some(Vertex { index: (self.curr.index + index) as usize })
        } else {
            None
        }
    }
}

} // verus!
