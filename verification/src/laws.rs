//! What holds of every graph.

use vstd::prelude::*;
use crate::direction::Direction;
use crate::graph::Edge;
use crate::graph::Vertex;
use crate::model::enters;
use crate::model::leaves;
use crate::model::touches;
use crate::model::GraphModel;

verus! {

/// The graph made by adding `n` vertices, one after the other, to the empty
/// graph.
pub open spec fn with_vertices(n: nat) -> GraphModel
    decreases n,
{
    if n == 0 {
        GraphModel::empty()
    } else {
        with_vertices((n - 1) as nat).add_vertex()
    }
}

/// A well-formed graph lists as many vertices as it has; the vertex at
/// position `i` has index `i`, so the listed vertices are those of the
/// graph, and no two of them are the same.
pub proof fn lemma_vertices(g: GraphModel)
    requires
        g.wf(),
    ensures
        g.vertices().len() == g.vertex_count,
        forall|i: int| 0 <= i < g.vertex_count ==> (#[trigger] g.vertices()[i]).index == i,
        forall|v: Vertex| g.contains_vertex(v) <==> g.vertices().contains(v),
        g.vertices().no_duplicates(),
{
    assert forall|v: Vertex| g.contains_vertex(v) implies g.vertices().contains(v) by {
        assert(g.vertices()[v.index as int] == v);
    }
}

/// Adding a vertex to a well-formed graph that has room for one keeps it
/// well formed, leaves its edges and the handles of its vertices as they
/// were, and appends the new vertex, whose index is the former count, to
/// the vertices.
pub proof fn lemma_add_vertex(g: GraphModel)
    requires
        g.wf(),
        g.vertex_count < usize::MAX,
    ensures
        g.add_vertex().wf(),
        g.add_vertex().vertex_count == g.vertex_count + 1,
        g.add_vertex().edges == g.edges,
        g.next_vertex().index == g.vertex_count,
        !g.contains_vertex(g.next_vertex()),
        g.add_vertex().vertices() == g.vertices().push(g.next_vertex()),
        forall|v: Vertex| g.contains_vertex(v) ==> g.add_vertex().contains_vertex(v),
        g.add_vertex().out_edges(g.next_vertex()).len() == 0,
        g.add_vertex().in_edges(g.next_vertex()).len() == 0,
        forall|v: Vertex| g.add_vertex().out_edges(v) == g.out_edges(v),
        forall|v: Vertex| g.add_vertex().in_edges(v) == g.in_edges(v),
{
    assert(g.add_vertex().vertices() =~= g.vertices().push(g.next_vertex()));
    let v = g.next_vertex();
    assert(g.edges.all(|e: Edge| !leaves(v)(e)));
    assert(g.edges.all(|e: Edge| !enters(v)(e)));
    g.edges.lemma_all_neg_filter_empty(leaves(v));
    g.edges.lemma_all_neg_filter_empty(enters(v));
}

/// After `n` vertices have been added to the empty graph, the graph lists
/// `n` vertices; the one at position `i` is the handle that the addition
/// number `i` returned and has index `i`, which is below `n` and differs
/// from the index of every other.
pub proof fn lemma_vertices_after_additions(n: nat)
    requires
        n <= usize::MAX,
    ensures
        with_vertices(n).wf(),
        with_vertices(n).vertex_count == n,
        with_vertices(n).vertices().len() == n,
        with_vertices(n).vertices().no_duplicates(),
        forall|i: int|
            0 <= i < n ==> {
                &&& (#[trigger] with_vertices(n).vertices()[i]).index == i
                &&& with_vertices(n).vertices()[i] == with_vertices(i as nat).next_vertex()
            },
    decreases n,
{
    if n > 0 {
        let m = (n - 1) as nat;
        lemma_vertices_after_additions(m);
        lemma_add_vertex(with_vertices(m));
        lemma_vertices(with_vertices(n));
        assert forall|i: int| 0 <= i < n implies (#[trigger] with_vertices(n).vertices()[i])
            == with_vertices(i as nat).next_vertex() by {
            if i < m {
                assert(with_vertices(n).vertices()[i] == with_vertices(m).vertices()[i]);
            }
        }
    } else {
        lemma_vertices(with_vertices(n));
    }
}

/// The edges that leave `v` are exactly the edges of the graph whose source
/// is `v`, and the edges that enter `v` exactly those whose target is `v`.
pub proof fn lemma_adjacency_exact(g: GraphModel, v: Vertex, e: Edge)
    requires
        g.wf(),
    ensures
        g.out_edges(v).contains(e) <==> g.contains_edge(e) && e.source == v,
        g.in_edges(v).contains(e) <==> g.contains_edge(e) && e.target == v,
{
    lemma_filter_exact(g, leaves(v), e);
    lemma_filter_exact(g, enters(v), e);
}

/// An edge passes a filter of the edges exactly if it is an edge of the
/// graph of which the filter holds.
proof fn lemma_filter_exact(g: GraphModel, pred: spec_fn(Edge) -> bool, e: Edge)
    requires
        g.wf(),
    ensures
        g.edges.filter(pred).contains(e) <==> g.contains_edge(e) && pred(e),
{
    let kept = g.edges.filter(pred);
    if kept.contains(e) {
        g.edges.lemma_filter_contains_rev(pred, e);
        let k = choose|k: int| 0 <= k < kept.len() && kept[k] == e;
        g.edges.lemma_filter_pred(pred, k);
        let i = choose|i: int| 0 <= i < g.edges.len() && g.edges[i] == e;
        assert(g.edges[i].index == i);
    }
    if g.contains_edge(e) && pred(e) {
        g.edges.lemma_filter_contains(pred, e.index as int);
    }
}

/// Every edge of a well-formed graph is among the edges that leave its
/// source and among the edges that enter its target.
pub proof fn lemma_edge_in_adjacency(g: GraphModel, e: Edge)
    requires
        g.wf(),
        g.contains_edge(e),
    ensures
        g.out_edges(e.source).contains(e),
        g.in_edges(e.target).contains(e),
{
    lemma_adjacency_exact(g, e.source, e);
    lemma_adjacency_exact(g, e.target, e);
}

/// Adding an edge between two vertices of a well-formed graph that has room
/// for one keeps it well formed and keeps its vertices and its earlier
/// edges. The new edge, whose index is the former number of edges, becomes
/// the last of the edges that leave its source and of those that enter its
/// target; the edges at every other vertex stay as they were.
pub proof fn lemma_add_edge(g: GraphModel, source: Vertex, target: Vertex)
    requires
        g.wf(),
        g.contains_vertex(source),
        g.contains_vertex(target),
        g.edges.len() < usize::MAX,
    ensures
        g.add_edge(source, target).wf(),
        g.add_edge(source, target).vertex_count == g.vertex_count,
        g.add_edge(source, target).edges.len() == g.edges.len() + 1,
        g.next_edge(source, target).index == g.edges.len(),
        g.add_edge(source, target).contains_edge(g.next_edge(source, target)),
        forall|e: Edge| g.contains_edge(e) ==> g.add_edge(source, target).contains_edge(e),
        g.add_edge(source, target).out_edges(source) == g.out_edges(source).push(
            g.next_edge(source, target),
        ),
        g.add_edge(source, target).in_edges(target) == g.in_edges(target).push(
            g.next_edge(source, target),
        ),
        forall|v: Vertex| v != source ==> g.add_edge(source, target).out_edges(v) == g.out_edges(v),
        forall|v: Vertex| v != target ==> g.add_edge(source, target).in_edges(v) == g.in_edges(v),
{
    let e = g.next_edge(source, target);
    g.edges.lemma_filter_push(e, leaves(source));
    g.edges.lemma_filter_push(e, enters(target));
    assert forall|v: Vertex| v != source implies g.add_edge(source, target).out_edges(v)
        == g.out_edges(v) by {
        g.edges.lemma_filter_push(e, leaves(v));
    }
    assert forall|v: Vertex| v != target implies g.add_edge(source, target).in_edges(v)
        == g.in_edges(v) by {
        g.edges.lemma_filter_push(e, enters(v));
    }
}

/// Each edge at a vertex in a direction touches that vertex with its near
/// end: following it in the opposite direction leads back to the vertex.
pub proof fn lemma_adjacent_edges_anchor(g: GraphModel, v: Vertex, direction: Direction, k: int)
    requires
        0 <= k < g.adjacent_edges(v, direction).len(),
    ensures
        g.adjacent_edges(v, direction)[k].spec_endpoint(direction.spec_oppposite()) == v,
{
    match direction {
        Direction::Outgoing => g.edges.lemma_filter_pred(leaves(v), k),
        Direction::Incoming => g.edges.lemma_filter_pred(enters(v), k),
    }
}

/// A filter keeps no element twice where the sequence holds none twice.
proof fn lemma_filter_no_duplicates<A>(s: Seq<A>, pred: spec_fn(A) -> bool)
    requires
        s.no_duplicates(),
    ensures
        s.filter(pred).no_duplicates(),
    decreases s.len(),
{
    if s.len() == 0 {
        s.lemma_filter_len(pred);
    } else {
        let rest = s.drop_last();
        let x = s.last();
        assert(s =~= rest.push(x));
        lemma_filter_no_duplicates(rest, pred);
        rest.lemma_filter_push(x, pred);
        if pred(x) {
            if rest.filter(pred).contains(x) {
                rest.lemma_filter_contains_rev(pred, x);
                let i = choose|i: int| 0 <= i < rest.len() && rest[i] == x;
                assert(s[i] == s[s.len() - 1]);
            }
        }
    }
}

/// The graph with the same vertices and all edges but the last.
spec fn without_last_edge(g: GraphModel) -> GraphModel {
    GraphModel { vertex_count: g.vertex_count, edges: g.edges.drop_last() }
}

/// The last edge of a graph counts once among the edges at the first `k`
/// vertices where its near end is one of them, and not at all otherwise.
proof fn lemma_degree_sum_step(g: GraphModel, direction: Direction, k: nat)
    requires
        g.wf(),
        g.edges.len() > 0,
        k <= g.vertex_count,
    ensures
        g.degree_sum(direction, k) == without_last_edge(g).degree_sum(direction, k) + (if g.edges.last().spec_endpoint(
            direction.spec_oppposite(),
        ).index < k {
            1nat
        } else {
            0nat
        }),
    decreases k,
{
    if k > 0 {
        let h = without_last_edge(g);
        let e = g.edges.last();
        let v = Vertex { index: (k - 1) as usize };
        lemma_degree_sum_step(g, direction, (k - 1) as nat);
        assert(g.edges =~= h.edges.push(e));
        h.edges.lemma_filter_push(e, touches(v, direction));
        assert(g.adjacent_edges(v, direction) == g.edges.filter(touches(v, direction)));
        assert(h.adjacent_edges(v, direction) == h.edges.filter(touches(v, direction)));
        assert(touches(v, direction)(e) <==> e.spec_endpoint(direction.spec_oppposite()).index
            == k - 1);
    }
}

/// Every edge of a well-formed graph is counted once among the edges that
/// leave the vertices, and once among the edges that enter them: the
/// numbers of edges at the vertices in either direction add up to the
/// number of edges.
pub proof fn lemma_degree_sum(g: GraphModel, direction: Direction)
    requires
        g.wf(),
    ensures
        g.degree_sum(direction, g.vertex_count) == g.edges.len(),
    decreases g.edges.len(),
{
    if g.edges.len() == 0 {
        lemma_degree_sum_no_edges(g, direction, g.vertex_count);
    } else {
        lemma_degree_sum(without_last_edge(g), direction);
        lemma_degree_sum_step(g, direction, g.vertex_count);
    }
}

/// Without edges there is no edge at any vertex.
proof fn lemma_degree_sum_no_edges(g: GraphModel, direction: Direction, k: nat)
    requires
        g.edges.len() == 0,
    ensures
        g.degree_sum(direction, k) == 0,
    decreases k,
{
    if k > 0 {
        let v = Vertex { index: (k - 1) as usize };
        lemma_degree_sum_no_edges(g, direction, (k - 1) as nat);
        g.edges.lemma_filter_len(touches(v, direction));
        assert(g.adjacent_edges(v, direction) == g.edges.filter(touches(v, direction)));
    }
}

/// In a well-formed graph whose edges join all pairs of distinct vertices,
/// each pair once in each direction, the edges at a vertex in a direction
/// are one fewer than the vertices; each of them touches the vertex with
/// its near end and another vertex with its far end. So the edges that
/// leave `v` all have the source `v` and a target other than `v`.
pub proof fn lemma_complete_degree(g: GraphModel, v: Vertex, direction: Direction)
    requires
        g.wf(),
        g.is_complete(),
        g.contains_vertex(v),
    ensures
        g.adjacent_edges(v, direction).len() == g.vertex_count - 1,
        forall|k: int|
            0 <= k < g.adjacent_edges(v, direction).len() ==> {
                let e = #[trigger] g.adjacent_edges(v, direction)[k];
                &&& g.contains_edge(e)
                &&& e.spec_endpoint(direction.spec_oppposite()) == v
                &&& e.spec_endpoint(direction) != v
            },
{
    let pred = touches(v, direction);
    let at_v = g.edges.filter(pred);
    assert(at_v == g.adjacent_edges(v, direction));
    let far = |e: Edge| e.spec_endpoint(direction);
    let far_ends = at_v.map_values(far);

    assert forall|k: int| 0 <= k < at_v.len() implies {
        let e = #[trigger] at_v[k];
        &&& g.contains_edge(e)
        &&& e.spec_endpoint(direction.spec_oppposite()) == v
        &&& e.spec_endpoint(direction) != v
    } by {
        assert(at_v.contains(at_v[k]));
        lemma_filter_exact(g, pred, at_v[k]);
    }

    lemma_filter_no_duplicates(g.edges, pred);
    assert forall|a: int, b: int|
        0 <= a < far_ends.len() && 0 <= b < far_ends.len() && a != b implies far_ends[a]
        != far_ends[b] by {
        let p = at_v[a].index as int;
        let q = at_v[b].index as int;
        assert(g.edges[p] == at_v[a] && g.edges[q] == at_v[b]);
        assert(p != q);
        if far_ends[a] == far_ends[b] {
            assert(g.edges[p].source == g.edges[q].source);
            assert(g.edges[p].target == g.edges[q].target);
            if p < q {
                assert(g.edges[p].target != g.edges[q].target);
            } else {
                assert(g.edges[q].target != g.edges[p].target);
            }
        }
    }

    lemma_vertices(g);
    let others = g.vertices().to_set().remove(v);
    assert forall|x: Vertex| others.contains(x) implies far_ends.to_set().contains(x) by {
        assert(g.contains_vertex(x));
        let i = match direction {
            Direction::Outgoing => {
                assert(g.has_edge(v, x));
                choose|i: int| g.joins(i, v, x)
            },
            Direction::Incoming => {
                assert(g.has_edge(x, v));
                choose|i: int| g.joins(i, x, v)
            },
        };
        g.edges.lemma_filter_contains(pred, i);
        let k = choose|k: int| 0 <= k < at_v.len() && at_v[k] == g.edges[i];
        assert(far_ends[k] == x);
    }
    assert forall|x: Vertex| far_ends.to_set().contains(x) implies others.contains(x) by {
        let k = choose|k: int| 0 <= k < far_ends.len() && far_ends[k] == x;
        assert(x == at_v[k].spec_endpoint(direction));
        assert(g.contains_vertex(x));
    }
    assert(far_ends.to_set() =~= others);

    far_ends.unique_seq_to_set();
    g.vertices().unique_seq_to_set();
    vstd::seq_lib::seq_to_set_is_finite(g.vertices());
}

/// With one edge fewer than the vertices at each vertex, the edges at the
/// first `k` vertices are `k` times that many.
proof fn lemma_complete_degree_sum(g: GraphModel, direction: Direction, k: nat)
    requires
        g.wf(),
        g.is_complete(),
        k <= g.vertex_count,
    ensures
        g.degree_sum(direction, k) == k * (g.vertex_count - 1),
    decreases k,
{
    let each = g.vertex_count - 1;
    if k > 0 {
        let v = Vertex { index: (k - 1) as usize };
        lemma_complete_degree_sum(g, direction, (k - 1) as nat);
        lemma_complete_degree(g, v, direction);
        assert((k - 1) * each + each == k * each) by (nonlinear_arith);
    } else {
        assert(k * each == 0) by (nonlinear_arith)
            requires
                k == 0,
        ;
    }
}

/// A well-formed graph on `n` vertices whose edges join all pairs of
/// distinct vertices, each pair once in each direction, has `n * (n - 1)`
/// edges; `n - 1` of them leave each vertex, all with that vertex as their
/// source and another vertex as their target, and as many enter it.
pub proof fn lemma_complete_counts(g: GraphModel)
    requires
        g.wf(),
        g.is_complete(),
    ensures
        g.edges.len() == g.vertex_count * (g.vertex_count - 1),
        forall|v: Vertex|
            g.contains_vertex(v) ==> {
                &&& (#[trigger] g.out_edges(v)).len() == g.vertex_count - 1
                &&& forall|k: int|
                    0 <= k < g.out_edges(v).len() ==> {
                        &&& (#[trigger] g.out_edges(v)[k]).source == v
                        &&& g.out_edges(v)[k].target != v
                    }
            },
        forall|v: Vertex|
            g.contains_vertex(v) ==> {
                &&& (#[trigger] g.in_edges(v)).len() == g.vertex_count - 1
                &&& forall|k: int|
                    0 <= k < g.in_edges(v).len() ==> {
                        &&& (#[trigger] g.in_edges(v)[k]).target == v
                        &&& g.in_edges(v)[k].source != v
                    }
            },
{
    lemma_degree_sum(g, Direction::Outgoing);
    lemma_complete_degree_sum(g, Direction::Outgoing, g.vertex_count);
    assert forall|v: Vertex| g.contains_vertex(v) implies {
        &&& (#[trigger] g.out_edges(v)).len() == g.vertex_count - 1
        &&& forall|k: int|
            0 <= k < g.out_edges(v).len() ==> {
                &&& (#[trigger] g.out_edges(v)[k]).source == v
                &&& g.out_edges(v)[k].target != v
            }
    } by {
        lemma_complete_degree(g, v, Direction::Outgoing);
        assert(g.adjacent_edges(v, Direction::Outgoing) == g.out_edges(v));
    }
    assert forall|v: Vertex| g.contains_vertex(v) implies {
        &&& (#[trigger] g.in_edges(v)).len() == g.vertex_count - 1
        &&& forall|k: int|
            0 <= k < g.in_edges(v).len() ==> {
                &&& (#[trigger] g.in_edges(v)[k]).target == v
                &&& g.in_edges(v)[k].source != v
            }
    } by {
        lemma_complete_degree(g, v, Direction::Incoming);
        assert(g.adjacent_edges(v, Direction::Incoming) == g.in_edges(v));
    }
}

/// `g` with an edge from `v` to each of the first `k` vertices other than
/// `v`, added in the order of those vertices.
pub open spec fn with_edges_from(g: GraphModel, v: Vertex, k: nat) -> GraphModel
    decreases k,
{
    if k == 0 {
        g
    } else {
        let before = with_edges_from(g, v, (k - 1) as nat);
        let w = Vertex { index: (k - 1) as usize };
        if w == v {
            before
        } else {
            before.add_edge(v, w)
        }
    }
}

/// The graph made by adding `n` vertices to the empty graph and then, for
/// each of the first `r` vertices in turn, an edge from it to every other
/// vertex.
pub open spec fn complete_rows(n: nat, r: nat) -> GraphModel
    decreases r,
{
    if r == 0 {
        with_vertices(n)
    } else {
        with_edges_from(complete_rows(n, (r - 1) as nat), Vertex { index: (r - 1) as usize }, n)
    }
}

/// The graph made by adding `n` vertices to the empty graph and then an
/// edge for every ordered pair of distinct vertices, pair by pair: first by
/// the source, then by the target.
pub open spec fn complete(n: nat) -> GraphModel {
    complete_rows(n, n)
}

/// Whether the pair `(v, w)` has had its turn once the first `r` vertices
/// have all their edges and vertex `r` has those to the first `k` vertices.
spec fn reached(v: Vertex, w: Vertex, r: nat, k: nat) -> bool {
    v.index < r || (v.index == r && w.index < k)
}

/// Whether `g` joins, on `n` vertices, exactly the pairs of distinct
/// vertices that have had their turn, each once.
spec fn complete_so_far(g: GraphModel, n: nat, r: nat, k: nat) -> bool {
    &&& g.wf()
    &&& g.vertex_count == n
    &&& g.edges.len() == r * (n - 1) + (if k > r {
        k - 1
    } else {
        k as int
    })
    &&& forall|i: int|
        0 <= i < g.edges.len() ==> {
            &&& (#[trigger] g.edges[i]).source != g.edges[i].target
            &&& reached(g.edges[i].source, g.edges[i].target, r, k)
        }
    &&& forall|i: int, j: int|
        0 <= i < j < g.edges.len() && (#[trigger] g.edges[i]).source == (
        #[trigger] g.edges[j]).source ==> g.edges[i].target != g.edges[j].target
    &&& forall|v: Vertex, w: Vertex|
        g.contains_vertex(v) && g.contains_vertex(w) && v != w && reached(v, w, r, k)
            ==> #[trigger] g.has_edge(v, w)
}

/// Giving the pair of vertex `r` and vertex `k` its turn keeps the graph
/// complete so far.
proof fn lemma_complete_step(g: GraphModel, n: nat, r: nat, k: nat)
    requires
        complete_so_far(g, n, r, k),
        r < n,
        k < n,
        n * (n - 1) <= usize::MAX,
    ensures
        k == r ==> complete_so_far(g, n, r, k + 1),
        k != r ==> complete_so_far(
            g.add_edge(Vertex { index: r as usize }, Vertex { index: k as usize }),
            n,
            r,
            k + 1,
        ),
{
    let v = Vertex { index: r as usize };
    let w = Vertex { index: k as usize };
    assert(n <= usize::MAX) by (nonlinear_arith)
        requires
            n * (n - 1) <= usize::MAX,
            n > 0,
    ;
    if k != r {
        let h = g.add_edge(v, w);
        let e = g.next_edge(v, w);
        assert(g.edges.len() < n * (n - 1)) by (nonlinear_arith)
            requires
                r < n,
                k < n,
                r != k,
                g.edges.len() == r * (n - 1) + (if k > r {
                    k - 1
                } else {
                    k as int
                }),
        ;
        lemma_add_edge(g, v, w);
        assert forall|i: int| 0 <= i < h.edges.len() implies {
            &&& (#[trigger] h.edges[i]).source != h.edges[i].target
            &&& reached(h.edges[i].source, h.edges[i].target, r, k + 1)
        } by {
            if i < g.edges.len() {
                assert(h.edges[i] == g.edges[i]);
            }
        }
        assert forall|i: int, j: int|
            0 <= i < j < h.edges.len() && (#[trigger] h.edges[i]).source == (
            #[trigger] h.edges[j]).source implies h.edges[i].target != h.edges[j].target by {
            assert(h.edges[i] == g.edges[i]);
            if j < g.edges.len() {
                assert(h.edges[j] == g.edges[j]);
            }
        }
        assert forall|x: Vertex, y: Vertex|
            h.contains_vertex(x) && h.contains_vertex(y) && x != y && reached(x, y, r, k + 1)
            implies #[trigger] h.has_edge(x, y) by {
            if x == v && y == w {
                assert(h.joins(g.edges.len() as int, x, y));
            } else {
                assert(g.has_edge(x, y));
                let i = choose|i: int| g.joins(i, x, y);
                assert(h.edges[i] == g.edges[i]);
                assert(h.joins(i, x, y));
            }
        }
    } else {
        assert forall|x: Vertex, y: Vertex|
            g.contains_vertex(x) && g.contains_vertex(y) && x != y && reached(x, y, r, k + 1)
            implies #[trigger] g.has_edge(x, y) by {
            assert(reached(x, y, r, k));
        }
    }
}

/// Giving the first `k` pairs of vertex `r` their turns keeps the graph
/// complete so far.
proof fn lemma_complete_row(g: GraphModel, n: nat, r: nat, k: nat)
    requires
        complete_so_far(g, n, r, 0),
        r < n,
        k <= n,
        n * (n - 1) <= usize::MAX,
    ensures
        complete_so_far(with_edges_from(g, Vertex { index: r as usize }, k), n, r, k),
    decreases k,
{
    if k > 0 {
        let j = (k - 1) as nat;
        lemma_complete_row(g, n, r, j);
        lemma_complete_step(with_edges_from(g, Vertex { index: r as usize }, j), n, r, j);
        assert(n <= usize::MAX) by (nonlinear_arith)
            requires
                n * (n - 1) <= usize::MAX,
                n > 0,
        ;
        assert((Vertex { index: j as usize } == Vertex { index: r as usize }) <==> j == r);
    }
}

/// Once the first `r` vertices have their edges to every other vertex, the
/// graph is complete so far.
proof fn lemma_complete_rows(n: nat, r: nat)
    requires
        r <= n,
        n * (n - 1) <= usize::MAX,
    ensures
        complete_so_far(complete_rows(n, r), n, r, 0),
    decreases r,
{
    assert(n <= usize::MAX) by (nonlinear_arith)
        requires
            n * (n - 1) <= usize::MAX,
    ;
    if r == 0 {
        lemma_vertices_after_additions(n);
        lemma_no_additions_of_edges(n);
        assert(0 * (n - 1) == 0) by (nonlinear_arith);
    } else {
        let q = (r - 1) as nat;
        let g = complete_rows(n, q);
        lemma_complete_rows(n, q);
        lemma_complete_row(g, n, q, n);
        let h = with_edges_from(g, Vertex { index: q as usize }, n);
        assert(q * (n - 1) + (n - 1) == r * (n - 1)) by (nonlinear_arith)
            requires
                q + 1 == r,
        ;
        assert forall|i: int| 0 <= i < h.edges.len() implies reached(
            (#[trigger] h.edges[i]).source,
            h.edges[i].target,
            r,
            0,
        ) by {
            assert(reached(h.edges[i].source, h.edges[i].target, q, n));
        }
        assert forall|x: Vertex, y: Vertex|
            h.contains_vertex(x) && h.contains_vertex(y) && x != y && reached(x, y, r, 0)
            implies #[trigger] h.has_edge(x, y) by {
            assert(reached(x, y, q, n));
        }
    }
}

/// Adding vertices adds no edge.
proof fn lemma_no_additions_of_edges(n: nat)
    ensures
        with_vertices(n).edges.len() == 0,
    decreases n,
{
    if n > 0 {
        lemma_no_additions_of_edges((n - 1) as nat);
    }
}

/// The graph in which an edge was added for every ordered pair of distinct
/// vertices among `n` is well formed and joins all pairs of distinct
/// vertices, each once in each direction. So it has `n` vertices and
/// `n * (n - 1)` edges, and `n - 1` edges leave each vertex, all with that
/// vertex as their source and another vertex as their target.
pub proof fn lemma_complete_graph(n: nat)
    requires
        n * (n - 1) <= usize::MAX,
    ensures
        complete(n).wf(),
        complete(n).is_complete(),
        complete(n).vertex_count == n,
        complete(n).vertices().len() == n,
        complete(n).edges.len() == n * (n - 1),
        forall|v: Vertex|
            complete(n).contains_vertex(v) ==> {
                &&& (#[trigger] complete(n).out_edges(v)).len() == n - 1
                &&& forall|k: int|
                    0 <= k < complete(n).out_edges(v).len() ==> {
                        &&& (#[trigger] complete(n).out_edges(v)[k]).source == v
                        &&& complete(n).out_edges(v)[k].target != v
                    }
            },
{
    lemma_complete_rows(n, n);
    lemma_complete_counts(complete(n));
}

} // verus!
