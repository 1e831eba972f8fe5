//! One value for each vertex of a graph.

use std::ops::Index;
use std::ops::IndexMut;
use vstd::prelude::*;
use vstd::std_specs::iter::IteratorSpec;
use crate::error::Error;
use crate::graph::Graph;
use crate::graph::Vertex;

verus! {

/// A dense map from the vertices of a graph to values of `T`, with one slot
/// for each vertex that the graph has. The map borrows the graph, so the
/// graph cannot grow while the map is in use.
pub struct VertexMap<'a, T> {
    graph: &'a Graph,
    elements: Vec<T>,
}

impl<'a, T> View for VertexMap<'a, T> {
    type V = Seq<T>;

    /// The slots, in the order of the vertices.
    closed spec fn view(&self) -> Seq<T> {
        self.elements@
    }
}

impl<'a, T> VertexMap<'a, T> {
    /// The graph whose vertices the map is keyed by.
    pub closed spec fn graph(&self) -> &'a Graph {
        self.graph
    }

    /// The map's invariant: its graph is well formed, and there is exactly
    /// one slot for each of its vertices.
    pub closed spec fn wf(&self) -> bool {
        &&& self.graph.wf()
        &&& self.elements@.len() == self.graph@.vertex_count
    }

    /// A well-formed map has as many slots as its graph has vertices.
    pub proof fn lemma_len(&self)
        requires
            self.wf(),
        ensures
            self@.len() == self.graph()@.vertex_count,
            self.graph().wf(),
    {
    }

    /// Creates a map for `graph` in which every slot holds `def`.
    pub fn new(graph: &'a Graph, def: T) -> (m: VertexMap<'a, T>) where T: Copy
        requires
            graph.wf(),
        ensures
            m.wf(),
            m.graph() == graph,
            m@ == Seq::new(graph@.vertex_count, |i: int| def),
    {
        let mut elements = Vec::with_capacity(graph.num_vertices());

        for _vertex in it: graph.vertices()
            invariant
                it.seq() == graph@.vertices(),
                elements@ == Seq::new(it.index() as nat, |i: int| def),
        {
            elements.push(def);
            assert(elements@ =~= Seq::new((it.index() + 1) as nat, |i: int| def));
        }

        VertexMap { graph, elements }
    }

    /// Creates a map for `graph` in which the slot of each vertex holds what
    /// `func` returns for that vertex. `func` is called once for each
    /// vertex, in the order of their creation.
    pub fn from_func<F>(graph: &'a Graph, func: F) -> (m: VertexMap<'a, T>) where
        F: Fn(Vertex) -> T,

        requires
            graph.wf(),
            forall|v: Vertex| graph@.contains_vertex(v) ==> call_requires(func, (v,)),
        ensures
            m.wf(),
            m.graph() == graph,
            m@.len() == graph@.vertex_count,
            m.holds_results_of(func),
    {
        let mut elements = Vec::with_capacity(graph.num_vertices());

        proof {
            graph.lemma_model_wf();
        }
        for vertex in it: graph.vertices()
            invariant
                graph@.wf(),
                it.seq() == graph@.vertices(),
                elements@.len() == it.index(),
                forall|v: Vertex| graph@.contains_vertex(v) ==> call_requires(func, (v,)),
                forall|i: int|
                    0 <= i < it.index() ==> call_ensures(
                        func,
                        (Vertex { index: i as usize },),
                        #[trigger] elements@[i],
                    ),
        {
            assert(graph@.contains_vertex(vertex));
            elements.push(func(vertex));
        }

        let m = VertexMap { graph, elements };
        assert forall|v: Vertex| graph@.contains_vertex(v) implies call_ensures(
            func,
            (v,),
            #[trigger] m.slot(v),
        ) by {
            assert(v == Vertex { index: v.index as int as usize });
        }
        m
    }

    /// Whether the slot of each vertex of the graph holds a value that
    /// `func` returns for that vertex.
    pub open spec fn holds_results_of<F: Fn(Vertex) -> T>(&self, func: F) -> bool {
        forall|v: Vertex|
            self.graph()@.contains_vertex(v) ==> call_ensures(func, (v,), #[trigger] self.slot(v))
    }

    /// The value in the slot of `vertex`.
    pub open spec fn slot(&self, vertex: Vertex) -> T
        recommends
            vertex.index < self@.len(),
    {
        self@[vertex.index as int]
    }

    /// Returns the value in the slot of `vertex`, or a bounds error where
    /// the map has no slot for it.
    pub fn get(&self, vertex: Vertex) -> (r: Result<&T, Error>)
        ensures
            match r {
                Ok(value) => vertex.index < self@.len() && *value == self.slot(vertex),
                Err(e) => {
                    &&& vertex.index >= self@.len()
                    &&& e == (Error::OutOfBounds { index: vertex.index, len: self@.len() as usize })
                },
            },
    {
        if vertex.index < self.elements.len() {
            Ok(&self.elements[vertex.index])
        } else {
            Err(Error::OutOfBounds { index: vertex.index, len: self.elements.len() })
        }
    }

    /// Puts `value` into the slot of `vertex` and leaves the other slots as
    /// they were, or returns a bounds error, with the map unchanged, where
    /// the map has no slot for `vertex`.
    pub fn set(&mut self, vertex: Vertex, value: T) -> (r: Result<(), Error>)
        ensures
            final(self).graph() == old(self).graph(),
            old(self).wf() ==> final(self).wf(),
            match r {
                Ok(()) => {
                    &&& vertex.index < old(self)@.len()
                    &&& final(self)@ == old(self)@.update(vertex.index as int, value)
                },
                Err(e) => {
                    &&& vertex.index >= old(self)@.len()
                    &&& final(self)@ == old(self)@
                    &&& e == (Error::OutOfBounds {
                        index: vertex.index,
                        len: old(self)@.len() as usize,
                    })
                },
            },
    {
        if vertex.index < self.elements.len() {
            self.elements[vertex.index] = value;
            Ok(())
        } else {
            Err(Error::OutOfBounds { index: vertex.index, len: self.elements.len() })
        }
    }
}

impl<'a, T> Index<Vertex> for VertexMap<'a, T> {
    type Output = T;

    /// The slot of `vertex`, which the map must have.
    fn index(&self, vertex: Vertex) -> (value: &T)
        ensures
            *value == self.slot(vertex),
    {
        &self.elements[vertex.index]
    }
}

impl<'a, T> vstd::std_specs::core::IndexSpecImpl<Vertex> for VertexMap<'a, T> {
    open spec fn index_req(&self, vertex: &Vertex) -> bool {
        vertex.index < self@.len()
    }
}

impl<'a, T> IndexMut<Vertex> for VertexMap<'a, T> {
    /// The slot of `vertex`, which the map must have, for writing.
    fn index_mut(&mut self, vertex: Vertex) -> (value: &mut T)
        requires
            vertex.index < old(self)@.len(),
        ensures
            *value == old(self).slot(vertex),
            final(self)@ == old(self)@.update(vertex.index as int, *final(value)),
            final(self).graph() == old(self).graph(),
            old(self).wf() ==> final(self).wf(),
    {
        &mut self.elements[vertex.index]
    }
}

/// A map made from a function holds, in the slot of each vertex of its
/// graph, the value that the function gives for that vertex.
pub proof fn lemma_from_func_reads_back<T, F: Fn(Vertex) -> T>(
    m: VertexMap<'_, T>,
    func: F,
    value_of: spec_fn(Vertex) -> T,
)
    requires
        m.holds_results_of(func),
        forall|v: Vertex, r: T| call_ensures(func, (v,), r) ==> r == value_of(v),
    ensures
        forall|v: Vertex| m.graph()@.contains_vertex(v) ==> #[trigger] m.slot(v) == value_of(v),
{
}

/// A map made from the function that gives each vertex its own index
/// holds, in the slot of each vertex of its graph, the index of that
/// vertex.
pub proof fn lemma_from_func_index_round_trip<F: Fn(Vertex) -> usize>(
    m: VertexMap<'_, usize>,
    func: F,
)
    requires
        m.holds_results_of(func),
        forall|v: Vertex, r: usize| call_ensures(func, (v,), r) ==> r == v.index,
    ensures
        forall|v: Vertex| m.graph()@.contains_vertex(v) ==> #[trigger] m.slot(v) == v.index,
{
    lemma_from_func_reads_back(m, func, |v: Vertex| v.index);
}

/// Writing a value to a slot and then the same value to the same slot
/// leaves the map as the first write left it, with that value in the slot.
pub proof fn lemma_set_twice<T>(
    before: VertexMap<'_, T>,
    once: VertexMap<'_, T>,
    twice: VertexMap<'_, T>,
    vertex: Vertex,
    value: T,
)
    requires
        vertex.index < before@.len(),
        once@ == before@.update(vertex.index as int, value),
        twice@ == once@.update(vertex.index as int, value),
    ensures
        once.slot(vertex) == value,
        twice.slot(vertex) == value,
        twice@ == once@,
{
    assert(twice@ =~= once@);
}

/// Writing to the slot of one vertex leaves the slot of every other vertex
/// as it was.
pub proof fn lemma_set_leaves_others<T>(
    before: VertexMap<'_, T>,
    after: VertexMap<'_, T>,
    vertex: Vertex,
    value: T,
    other: Vertex,
)
    requires
        vertex.index < before@.len(),
        other.index < before@.len(),
        other != vertex,
        after@ == before@.update(vertex.index as int, value),
    ensures
        after.slot(other) == before.slot(other),
{
}

} // verus!
