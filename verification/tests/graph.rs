use digraph::direction::Direction;
use digraph::error::Error;
use digraph::graph::Edge;
use digraph::graph::Graph;
use digraph::graph::Vertex;

fn complete_graph(n: usize) -> Graph {
    let mut graph = Graph::new();
    for _ in 0..n {
        graph.add_vertex();
    }
    let vertices: Vec<Vertex> = graph.vertices().collect();
    for v in &vertices {
        for w in &vertices {
            if v != w {
                graph.add_edge(v, w).unwrap();
            }
        }
    }
    graph
}

#[test]
fn test_construction() {
    let mut graph = Graph::new();

    let n = 4;

    for _ in 0..n {
        graph.add_vertex();
    }

    let vertices: Vec<Vertex> = graph.vertices().collect();

    for v in &vertices {
        for w in &vertices {
            if v != w {
                graph.add_edge(v, w).unwrap();
            }
        }
    }

    for vertex in graph.vertices() {
        assert!(graph.out_edges(vertex).unwrap().count() == n - 1);
        for edge in graph.out_edges(vertex).unwrap() {
            assert!(edge.source == vertex);
            assert!(edge.target != vertex);
        }
    }

    assert!(graph.vertices().count() == n);
    assert!(graph.edges().count() == n * (n - 1))
}

#[test]
fn empty_graph_has_no_vertices_and_no_edges() {
    let graph = Graph::new();
    assert_eq!(graph.num_vertices(), 0);
    assert_eq!(graph.num_edges(), 0);
    assert_eq!(graph.vertices().count(), 0);
    assert_eq!(graph.edges().count(), 0);
    assert!(graph.vertices().next().is_none());
}

#[test]
fn handles_are_built_from_indices() {
    assert_eq!(Vertex::new(), Vertex { index: 0 });
    assert_eq!(Vertex::from_index(17), Vertex { index: 17 });
    assert_ne!(Vertex::from_index(1), Vertex::from_index(2));
}

#[test]
fn add_vertex_numbers_vertices_in_order() {
    let mut graph = Graph::new();
    for expected in 0..7 {
        let v = graph.add_vertex();
        assert_eq!(v, Vertex { index: expected });
        assert_eq!(graph.num_vertices(), expected + 1);
    }
    let vertices: Vec<Vertex> = graph.vertices().collect();
    assert_eq!(vertices.len(), 7);
    for (i, v) in vertices.iter().enumerate() {
        assert_eq!(v.index, i);
        assert!(v.index < 7);
    }
    for i in 0..vertices.len() {
        for j in 0..vertices.len() {
            if i != j {
                assert_ne!(vertices[i], vertices[j]);
            }
        }
    }
}

#[test]
fn vertices_can_be_walked_again_and_end_for_good() {
    let mut graph = Graph::new();
    graph.add_vertex();
    graph.add_vertex();
    let first: Vec<Vertex> = graph.vertices().collect();
    let second: Vec<Vertex> = graph.vertices().collect();
    assert_eq!(first, second);
    assert_eq!(first, vec![Vertex { index: 0 }, Vertex { index: 1 }]);

    let mut it = graph.vertices();
    assert_eq!(it.next(), Some(Vertex { index: 0 }));
    assert_eq!(it.next(), Some(Vertex { index: 1 }));
    assert_eq!(it.next(), None);
    assert_eq!(it.next(), None);
    assert_eq!(it.next(), None);
}

#[test]
fn add_edge_numbers_edges_in_order() {
    let mut graph = Graph::new();
    let a = graph.add_vertex();
    let b = graph.add_vertex();
    let c = graph.add_vertex();
    let ab = graph.add_edge(&a, &b).unwrap();
    let bc = graph.add_edge(&b, &c).unwrap();
    let ca = graph.add_edge(&c, &a).unwrap();
    assert_eq!(ab, Edge { index: 0, source: a, target: b });
    assert_eq!(bc, Edge { index: 1, source: b, target: c });
    assert_eq!(ca, Edge { index: 2, source: c, target: a });
    assert_eq!(graph.num_edges(), 3);
    let edges: Vec<Edge> = graph.edges().copied().collect();
    assert_eq!(edges, vec![ab, bc, ca]);
    let again: Vec<Edge> = graph.edges().copied().collect();
    assert_eq!(again, edges);
    assert_eq!(graph.num_vertices(), 3);
}

#[test]
fn every_edge_is_among_the_out_edges_of_its_source_and_the_in_edges_of_its_target() {
    let mut graph = Graph::new();
    let a = graph.add_vertex();
    let b = graph.add_vertex();
    let c = graph.add_vertex();
    let ab = graph.add_edge(&a, &b).unwrap();
    let ac = graph.add_edge(&a, &c).unwrap();
    let cb = graph.add_edge(&c, &b).unwrap();

    for edge in graph.edges() {
        assert!(graph.out_edges(edge.source).unwrap().any(|e| e == edge));
        assert!(graph.in_edges(edge.target).unwrap().any(|e| e == edge));
    }

    let out_a: Vec<Edge> = graph.out_edges(a).unwrap().copied().collect();
    let out_b: Vec<Edge> = graph.out_edges(b).unwrap().copied().collect();
    let out_c: Vec<Edge> = graph.out_edges(c).unwrap().copied().collect();
    assert_eq!(out_a, vec![ab, ac]);
    assert_eq!(out_b, vec![]);
    assert_eq!(out_c, vec![cb]);

    let in_a: Vec<Edge> = graph.in_edges(a).unwrap().copied().collect();
    let in_b: Vec<Edge> = graph.in_edges(b).unwrap().copied().collect();
    let in_c: Vec<Edge> = graph.in_edges(c).unwrap().copied().collect();
    assert_eq!(in_a, vec![]);
    assert_eq!(in_b, vec![ab, cb]);
    assert_eq!(in_c, vec![ac]);
}

#[test]
fn in_edges_are_the_edges_that_end_at_the_vertex() {
    let mut graph = Graph::new();
    let a = graph.add_vertex();
    let b = graph.add_vertex();
    let ab = graph.add_edge(&a, &b).unwrap();

    assert_eq!(graph.in_edges(a).unwrap().count(), 0);
    assert_eq!(graph.in_edges(b).unwrap().count(), 1);
    assert_eq!(graph.out_edges(a).unwrap().count(), 1);
    assert_eq!(graph.out_edges(b).unwrap().count(), 0);
    for edge in graph.in_edges(b).unwrap() {
        assert_eq!(edge.target, b);
        assert_eq!(*edge, ab);
    }
}

#[test]
fn a_self_loop_leaves_and_enters_its_vertex() {
    let mut graph = Graph::new();
    let a = graph.add_vertex();
    let b = graph.add_vertex();
    let aa = graph.add_edge(&a, &a).unwrap();
    assert_eq!(aa, Edge { index: 0, source: a, target: a });
    let out_a: Vec<Edge> = graph.out_edges(a).unwrap().copied().collect();
    let in_a: Vec<Edge> = graph.in_edges(a).unwrap().copied().collect();
    assert_eq!(out_a, vec![aa]);
    assert_eq!(in_a, vec![aa]);
    assert_eq!(graph.out_edges(b).unwrap().count(), 0);
    assert_eq!(graph.in_edges(b).unwrap().count(), 0);
    assert_eq!(graph.num_edges(), 1);
}

#[test]
fn parallel_edges_are_kept_apart_by_their_indices() {
    let mut graph = Graph::new();
    let a = graph.add_vertex();
    let b = graph.add_vertex();
    let first = graph.add_edge(&a, &b).unwrap();
    let second = graph.add_edge(&a, &b).unwrap();
    assert_ne!(first, second);
    assert_eq!(first.index, 0);
    assert_eq!(second.index, 1);
    let out_a: Vec<Edge> = graph.out_edges(a).unwrap().copied().collect();
    assert_eq!(out_a, vec![first, second]);
}

#[test]
fn add_edge_refuses_a_vertex_that_the_graph_does_not_have() {
    let mut graph = Graph::new();
    let a = graph.add_vertex();
    let b = graph.add_vertex();
    graph.add_edge(&a, &b).unwrap();
    let stranger = Vertex { index: 2 };
    let other = Vertex { index: 9 };

    assert_eq!(graph.add_edge(&stranger, &a), Err(Error::InvalidVertex { vertex: stranger }));
    assert_eq!(graph.add_edge(&a, &stranger), Err(Error::InvalidVertex { vertex: stranger }));
    assert_eq!(graph.add_edge(&other, &stranger), Err(Error::InvalidVertex { vertex: other }));

    assert_eq!(graph.num_vertices(), 2);
    assert_eq!(graph.num_edges(), 1);
    assert_eq!(graph.out_edges(a).unwrap().count(), 1);
    assert_eq!(graph.in_edges(a).unwrap().count(), 0);
    assert_eq!(graph.in_edges(b).unwrap().count(), 1);

    let next = graph.add_edge(&b, &a).unwrap();
    assert_eq!(next.index, 1);
}

#[test]
fn a_vertex_added_later_becomes_usable() {
    let mut graph = Graph::new();
    let a = graph.add_vertex();
    let later = Vertex { index: 1 };
    assert_eq!(graph.add_edge(&a, &later), Err(Error::InvalidVertex { vertex: later }));
    let b = graph.add_vertex();
    assert_eq!(b, later);
    let ab = graph.add_edge(&a, &later).unwrap();
    assert_eq!(ab, Edge { index: 0, source: a, target: b });
    assert_eq!(graph.out_edges(b).unwrap().count(), 0);
    assert_eq!(graph.in_edges(b).unwrap().count(), 1);
}

#[test]
fn traversals_refuse_a_vertex_that_the_graph_does_not_have() {
    let mut graph = Graph::new();
    graph.add_vertex();
    let stranger = Vertex { index: 1 };
    let expected = Error::InvalidVertex { vertex: stranger };
    assert_eq!(graph.out_edges(stranger).err(), Some(expected));
    assert_eq!(graph.in_edges(stranger).err(), Some(expected));
    assert_eq!(graph.adjacent_edges(stranger, Direction::Outgoing).err(), Some(expected));
    assert_eq!(graph.adjacent_edges(stranger, Direction::Incoming).err(), Some(expected));
    assert!(graph.out_edges(Vertex { index: 0 }).is_ok());
}

#[test]
fn adjacent_edges_follow_the_direction() {
    let mut graph = Graph::new();
    let a = graph.add_vertex();
    let b = graph.add_vertex();
    let c = graph.add_vertex();
    let ab = graph.add_edge(&a, &b).unwrap();
    let bc = graph.add_edge(&b, &c).unwrap();

    let leaving: Vec<Edge> = graph.adjacent_edges(b, Direction::Outgoing).unwrap().copied().collect();
    let entering: Vec<Edge> = graph.adjacent_edges(b, Direction::Incoming).unwrap().copied().collect();
    assert_eq!(leaving, vec![bc]);
    assert_eq!(entering, vec![ab]);

    for edge in graph.adjacent_edges(b, Direction::Outgoing).unwrap() {
        assert_eq!(edge.endpoint(Direction::Outgoing), c);
        assert_eq!(edge.endpoint(Direction::Outgoing.oppposite()), b);
    }
    for edge in graph.adjacent_edges(b, Direction::Incoming).unwrap() {
        assert_eq!(edge.endpoint(Direction::Incoming), a);
        assert_eq!(edge.endpoint(Direction::Incoming.oppposite()), b);
    }
}

#[test]
fn direction_has_an_opposite() {
    assert_eq!(Direction::Outgoing.oppposite(), Direction::Incoming);
    assert_eq!(Direction::Incoming.oppposite(), Direction::Outgoing);
    assert_eq!(Direction::Outgoing.oppposite().oppposite(), Direction::Outgoing);
    assert_eq!(Direction::Incoming.oppposite().oppposite(), Direction::Incoming);
}

#[test]
fn endpoint_is_the_far_end_in_the_direction() {
    let edge = Edge { index: 0, source: Vertex { index: 3 }, target: Vertex { index: 8 } };
    assert_eq!(edge.endpoint(Direction::Outgoing), Vertex { index: 8 });
    assert_eq!(edge.endpoint(Direction::Incoming), Vertex { index: 3 });
}

#[test]
fn complete_graph_on_four_vertices() {
    let graph = complete_graph(4);
    assert_eq!(graph.edges().count(), 12);
    assert_eq!(graph.vertices().count(), 4);
    for vertex in graph.vertices() {
        assert_eq!(graph.out_edges(vertex).unwrap().count(), 3);
        assert_eq!(graph.in_edges(vertex).unwrap().count(), 3);
    }
}

#[test]
fn complete_graphs_have_as_many_edges_as_ordered_pairs() {
    for n in [0usize, 1, 2, 3, 5, 8] {
        let graph = complete_graph(n);
        assert_eq!(graph.vertices().count(), n);
        assert_eq!(graph.edges().count(), if n == 0 { 0 } else { n * (n - 1) });
        for vertex in graph.vertices() {
            assert_eq!(graph.out_edges(vertex).unwrap().count(), n - 1);
            assert_eq!(graph.in_edges(vertex).unwrap().count(), n - 1);
            for edge in graph.out_edges(vertex).unwrap() {
                assert_eq!(edge.source, vertex);
                assert_ne!(edge.target, vertex);
            }
            for edge in graph.in_edges(vertex).unwrap() {
                assert_eq!(edge.target, vertex);
                assert_ne!(edge.source, vertex);
            }
        }
    }
}

#[test]
fn degrees_add_up_to_the_number_of_edges() {
    let mut graph = Graph::new();
    let a = graph.add_vertex();
    let b = graph.add_vertex();
    let c = graph.add_vertex();
    graph.add_edge(&a, &b).unwrap();
    graph.add_edge(&a, &b).unwrap();
    graph.add_edge(&c, &c).unwrap();
    graph.add_edge(&b, &a).unwrap();
    graph.add_edge(&c, &a).unwrap();
    let mut leaving = 0;
    let mut entering = 0;
    for vertex in graph.vertices() {
        leaving += graph.out_edges(vertex).unwrap().count();
        entering += graph.in_edges(vertex).unwrap().count();
    }
    assert_eq!(leaving, 5);
    assert_eq!(entering, 5);
    assert_eq!(graph.num_edges(), 5);
}

#[test]
fn a_vertex_reads_as_its_index() {
    assert_eq!(Vertex { index: 0 }.to_string(), "0");
    assert_eq!(Vertex { index: 7 }.to_string(), "7");
    assert_eq!(Vertex { index: 9 }.to_string(), "9");
    assert_eq!(Vertex { index: 10 }.to_string(), "10");
    assert_eq!(Vertex { index: 99 }.to_string(), "99");
    assert_eq!(Vertex { index: 100 }.to_string(), "100");
    assert_eq!(Vertex { index: 12345 }.to_string(), "12345");
    assert_eq!(Vertex { index: 4294967295 }.to_string(), "4294967295");
    assert_eq!(Vertex { index: usize::MAX }.to_string(), format!("{}", usize::MAX));
}

#[test]
fn an_edge_reads_as_source_arrow_target() {
    let edge = Edge { index: 5, source: Vertex { index: 3 }, target: Vertex { index: 12 } };
    assert_eq!(edge.to_string(), "3 -> 12");
    let looped = Edge { index: 0, source: Vertex { index: 0 }, target: Vertex { index: 0 } };
    assert_eq!(looped.to_string(), "0 -> 0");
}

#[test]
fn an_error_reads_as_the_broken_rule_and_its_handles() {
    let stranger = Error::InvalidVertex { vertex: Vertex { index: 42 } };
    assert_eq!(stranger.to_string(), "invalid vertex handle: 42");
    let bounds = Error::OutOfBounds { index: 12, len: 4 };
    assert_eq!(bounds.to_string(), "index out of bounds: the index is 12 but the length is 4");
    let gap = Error::Discontinuous {
        expected: Vertex { index: 2 },
        edge: Edge { index: 0, source: Vertex { index: 0 }, target: Vertex { index: 1 } },
    };
    assert_eq!(gap.to_string(), "discontinuous path: edge 0 -> 1 does not touch vertex 2");
}
