//! One value for each edge of a graph.

use std::ops::Index;
use std::ops::IndexMut;
use vstd::prelude::*;
use vstd::std_specs::iter::IteratorSpec;
use crate::error::Error;
use crate::graph::Edge;
use crate::graph::Graph;

verus! {

/// A dense map from the edges of a graph to values of `T`, with one slot
/// for each edge that the graph has. The map borrows the graph, so the
/// graph cannot grow while the map is in use.
pub struct EdgeMap<'a, T> {
    graph: &'a Graph,
    elements: Vec<T>,
}

impl<'a, T> View for EdgeMap<'a, T> {
    type V = Seq<T>;

    /// The slots, in the order of the edges.
    closed spec fn view(&self) -> Seq<T> {
        self.elements@
    }
}

impl<'a, T> EdgeMap<'a, T> {
    /// The graph whose edges the map is keyed by.
    pub closed spec fn graph(&self) -> &'a Graph {
        self.graph
    }

    /// The map's invariant: its graph is well formed, and there is exactly
    /// one slot for each of its edges.
    pub closed spec fn wf(&self) -> bool {
        &&& self.graph.wf()
        &&& self.elements@.len() == self.graph@.edges.len()
    }

    /// A well-formed map has as many slots as its graph has edges.
    pub proof fn lemma_len(&self)
        requires
            self.wf(),
        ensures
            self@.len() == self.graph()@.edges.len(),
            self.graph().wf(),
    {
    }

    /// Creates a map for `graph` in which every slot holds `def`.
    pub fn new(graph: &'a Graph, def: T) -> (m: EdgeMap<'a, T>) where T: Copy
        requires
            graph.wf(),
        ensures
            m.wf(),
            m.graph() == graph,
            m@ == Seq::new(graph@.edges.len(), |i: int| def),
    {
        let mut elements = Vec::with_capacity(graph.num_edges());

        for _edge in it: graph.edges()
            invariant
                it.seq() == graph@.edges.as_ref(),
                elements@ == Seq::new(it.index() as nat, |i: int| def),
        {
            elements.push(def);
            assert(elements@ =~= Seq::new((it.index() + 1) as nat, |i: int| def));
        }

        EdgeMap { graph, elements }
    }

    /// Creates a map for `graph` in which the slot of each edge holds what
    /// `func` returns for that edge. `func` is called once for each edge, in
    /// the order of their creation.
    pub fn from_func<F>(graph: &'a Graph, func: F) -> (m: EdgeMap<'a, T>) where
        F: Fn(&Edge) -> T,

        requires
            graph.wf(),
            forall|e: Edge| graph@.contains_edge(e) ==> call_requires(func, (&e,)),
        ensures
            m.wf(),
            m.graph() == graph,
            m@.len() == graph@.edges.len(),
            m.holds_results_of(func),
    {
        let mut elements = Vec::with_capacity(graph.num_edges());

        proof {
            graph.lemma_model_wf();
        }
        for edge in it: graph.edges()
            invariant
                graph@.wf(),
                it.seq() == graph@.edges.as_ref(),
                elements@.len() == it.index(),
                forall|e: Edge| graph@.contains_edge(e) ==> call_requires(func, (&e,)),
                forall|i: int|
                    0 <= i < it.index() ==> call_ensures(
                        func,
                        (&graph@.edges[i],),
                        #[trigger] elements@[i],
                    ),
        {
            assert(graph@.contains_edge(*edge));
            elements.push(func(edge));
        }

        EdgeMap { graph, elements }
    }

    /// Whether the slot of each edge of the graph holds a value that `func`
    /// returns for that edge.
    pub open spec fn holds_results_of<F: Fn(&Edge) -> T>(&self, func: F) -> bool {
        forall|e: Edge|
            self.graph()@.contains_edge(e) ==> call_ensures(func, (&e,), #[trigger] self.slot(e))
    }

    /// The value in the slot of `edge`.
    pub open spec fn slot(&self, edge: Edge) -> T
        recommends
            edge.index < self@.len(),
    {
        self@[edge.index as int]
    }

    /// Returns the value in the slot of `edge`, or a bounds error where the
    /// map has no slot for it.
    pub fn get(&self, edge: &Edge) -> (r: Result<&T, Error>)
        ensures
            match r {
                Ok(value) => edge.index < self@.len() && *value == self.slot(*edge),
                Err(e) => {
                    &&& edge.index >= self@.len()
                    &&& e == (Error::OutOfBounds { index: edge.index, len: self@.len() as usize })
                },
            },
    {
        if edge.index < self.elements.len() {
            Ok(&self.elements[edge.index])
        } else {
            Err(Error::OutOfBounds { index: edge.index, len: self.elements.len() })
        }
    }

    /// Puts `value` into the slot of `edge` and leaves the other slots as
    /// they were, or returns a bounds error, with the map unchanged, where
    /// the map has no slot for `edge`.
    pub fn set(&mut self, edge: &Edge, value: T) -> (r: Result<(), Error>)
        ensures
            final(self).graph() == old(self).graph(),
            old(self).wf() ==> final(self).wf(),
            match r {
                Ok(()) => {
                    &&& edge.index < old(self)@.len()
                    &&& final(self)@ == old(self)@.update(edge.index as int, value)
                },
                Err(e) => {
                    &&& edge.index >= old(self)@.len()
                    &&& final(self)@ == old(self)@
                    &&& e == (Error::OutOfBounds {
                        index: edge.index,
                        len: old(self)@.len() as usize,
                    })
                },
            },
    {
        if edge.index < self.elements.len() {
            self.elements[edge.index] = value;
            Ok(())
        } else {
            Err(Error::OutOfBounds { index: edge.index, len: self.elements.len() })
        }
    }
}

impl<'a, 'b, T> Index<&'b Edge> for EdgeMap<'a, T> {
    type Output = T;

    /// The slot of `edge`, which the map must have.
    fn index(&self, edge: &'b Edge) -> (value: &T)
        ensures
            *value == self.slot(*edge),
    {
        &self.elements[edge.index]
    }
}

impl<'a, 'b, T> vstd::std_specs::core::IndexSpecImpl<&'b Edge> for EdgeMap<'a, T> {
    open spec fn index_req(&self, edge: &&'b Edge) -> bool {
        edge.index < self@.len()
    }
}

impl<'a, 'b, T> IndexMut<&'b Edge> for EdgeMap<'a, T> {
    /// The slot of `edge`, which the map must have, for writing.
    fn index_mut(&mut self, edge: &'b Edge) -> (value: &mut T)
        requires
            edge.index < old(self)@.len(),
        ensures
            *value == old(self).slot(*edge),
            final(self)@ == old(self)@.update(edge.index as int, *final(value)),
            final(self).graph() == old(self).graph(),
            old(self).wf() ==> final(self).wf(),
    {
        &mut self.elements[edge.index]
    }
}

/// A map made from a function holds, in the slot of each edge of its
/// graph, the value that the function gives for that edge.
pub proof fn lemma_from_func_reads_back<T, F: Fn(&Edge) -> T>(
    m: EdgeMap<'_, T>,
    func: F,
    value_of: spec_fn(Edge) -> T,
)
    requires
        m.holds_results_of(func),
        forall|e: Edge, r: T| call_ensures(func, (&e,), r) ==> r == value_of(e),
    ensures
        forall|e: Edge| m.graph()@.contains_edge(e) ==> #[trigger] m.slot(e) == value_of(e),
{
}

/// Writing a value to a slot and then the same value to the same slot
/// leaves the map as the first write left it, with that value in the slot.
pub proof fn lemma_set_twice<T>(
    before: EdgeMap<'_, T>,
    once: EdgeMap<'_, T>,
    twice: EdgeMap<'_, T>,
    edge: Edge,
    value: T,
)
    requires
        edge.index < before@.len(),
        once@ == before@.update(edge.index as int, value),
        twice@ == once@.update(edge.index as int, value),
    ensures
        once.slot(edge) == value,
        twice.slot(edge) == value,
        twice@ == once@,
{
    assert(twice@ =~= once@);
}

/// Writing to the slot of one edge of the graph leaves the slot of every
/// other edge of the graph as it was.
pub proof fn lemma_set_leaves_others<T>(
    before: EdgeMap<'_, T>,
    after: EdgeMap<'_, T>,
    edge: Edge,
    value: T,
    other: Edge,
)
    requires
        before.wf(),
        before.graph()@.contains_edge(edge),
        before.graph()@.contains_edge(other),
        other != edge,
        after@ == before@.update(edge.index as int, value),
    ensures
        after.slot(other) == before.slot(other),
{
}

} // verus!
