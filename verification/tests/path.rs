use digraph::error::Error;
use digraph::graph::Edge;
use digraph::graph::Graph;
use digraph::graph::Vertex;
use digraph::path::Path;

fn chain() -> (Vertex, Vertex, Vertex, Edge, Edge) {
    let mut graph = Graph::new();
    let a = graph.add_vertex();
    let b = graph.add_vertex();
    let c = graph.add_vertex();
    let ab = graph.add_edge(&a, &b).unwrap();
    let bc = graph.add_edge(&b, &c).unwrap();
    (a, b, c, ab, bc)
}

#[test]
fn a_new_path_is_empty_and_ends_where_it_starts() {
    let path = Path::new(Vertex { index: 3 });
    assert_eq!(path.source(), Vertex { index: 3 });
    assert_eq!(path.target(), Vertex { index: 3 });
    assert!(path.edges().is_empty());
}

#[test]
fn append_builds_a_walk_edge_by_edge() {
    let (a, b, c, ab, bc) = chain();
    let mut path = Path::new(a);
    assert_eq!(path.append(ab), Ok(()));
    assert_eq!(path.target(), b);
    assert_eq!(path.append(bc), Ok(()));
    assert_eq!(path.source(), a);
    assert_eq!(path.target(), c);
    assert_eq!(path.edges(), &vec![ab, bc]);
    assert_eq!(path.edges().len(), 2);
}

#[test]
fn append_refuses_an_edge_that_does_not_leave_the_end() {
    let (a, _b, c, ab, bc) = chain();
    let mut path = Path::new(a);
    path.append(ab).unwrap();
    path.append(bc).unwrap();

    assert_eq!(path.append(ab), Err(Error::Discontinuous { expected: c, edge: ab }));
    assert_eq!(path.append(bc), Err(Error::Discontinuous { expected: c, edge: bc }));
    assert_eq!(path.source(), a);
    assert_eq!(path.target(), c);
    assert_eq!(path.edges(), &vec![ab, bc]);

    let onward = Edge { index: 2, source: c, target: a };
    assert_eq!(path.append(onward), Ok(()));
    assert_eq!(path.target(), a);
    assert_eq!(path.edges(), &vec![ab, bc, onward]);
}

#[test]
fn append_to_an_empty_path_must_leave_its_source() {
    let (a, b, _c, ab, bc) = chain();
    let mut path = Path::new(a);
    assert_eq!(path.append(bc), Err(Error::Discontinuous { expected: a, edge: bc }));
    assert!(path.edges().is_empty());
    assert_eq!(path.source(), a);
    assert_eq!(path.target(), a);
    assert_eq!(path.append(ab), Ok(()));
    assert_eq!(path.target(), b);
}

#[test]
fn prepend_builds_the_same_walk_from_its_end() {
    let (a, b, c, ab, bc) = chain();
    let mut path = Path::new(c);
    assert_eq!(path.prepend(bc), Ok(()));
    assert_eq!(path.source(), b);
    assert_eq!(path.prepend(ab), Ok(()));
    assert_eq!(path.source(), a);
    assert_eq!(path.target(), c);
    assert_eq!(path.edges(), &vec![ab, bc]);

    let mut appended = Path::new(a);
    appended.append(ab).unwrap();
    appended.append(bc).unwrap();
    assert_eq!(path.edges(), appended.edges());
    assert_eq!(path.source(), appended.source());
    assert_eq!(path.target(), appended.target());
}

#[test]
fn prepend_refuses_an_edge_that_does_not_enter_the_start() {
    let (a, b, c, ab, bc) = chain();
    let mut path = Path::new(c);
    assert_eq!(path.prepend(ab), Err(Error::Discontinuous { expected: c, edge: ab }));
    assert!(path.edges().is_empty());
    assert_eq!(path.source(), c);

    path.prepend(bc).unwrap();
    assert_eq!(path.prepend(bc), Err(Error::Discontinuous { expected: b, edge: bc }));
    assert_eq!(path.source(), b);
    assert_eq!(path.target(), c);
    assert_eq!(path.edges(), &vec![bc]);
    let _ = a;
}

#[test]
fn a_path_may_grow_at_both_ends() {
    let (a, _b, c, ab, bc) = chain();
    let b = ab.target;
    let mut path = Path::new(b);
    path.append(bc).unwrap();
    path.prepend(ab).unwrap();
    assert_eq!(path.source(), a);
    assert_eq!(path.target(), c);
    assert_eq!(path.edges(), &vec![ab, bc]);
}

#[test]
fn a_path_may_walk_a_loop_again_and_again() {
    let v = Vertex { index: 0 };
    let around = Edge { index: 0, source: v, target: v };
    let mut path = Path::new(v);
    path.append(around).unwrap();
    path.prepend(around).unwrap();
    path.append(around).unwrap();
    assert_eq!(path.edges(), &vec![around, around, around]);
    assert_eq!(path.source(), v);
    assert_eq!(path.target(), v);
}
