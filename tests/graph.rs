use std::collections::HashMap;
use std::collections::HashSet;

use modal_graph::graph::graph as sets;
use modal_graph::graph::{Edge, Graph, GraphOperation, Vertex};

fn set_of<T: std::hash::Hash + Eq + Copy>(v: &[T]) -> HashSet<T> {
    v.iter().copied().collect()
}

#[test]
fn graph_new_empty() {
    let g = Graph::new();
    assert_eq!(g.vertices.len(), 0);
    assert_eq!(g.edges.len(), 0);

    let s = sets::Graph::new();
    assert_eq!(s.vertices().len(), 0);
    assert_eq!(s.edges().len(), 0);
}

#[test]
fn graph_new_construct_small_graph() {
    let mut g = Graph::new();
    let v1 = Vertex { id: 1 };
    let v2 = Vertex { id: 2 };
    let v3 = Vertex { id: 3 };
    let e1 = Edge { id: 1, source: v1.id, target: v2.id };
    let e2 = Edge { id: 2, source: v2.id, target: v3.id };
    g.add_vertex(v1);
    g.add_vertex(v2);
    g.add_vertex(v3);
    g.add_edge(e1);
    g.add_edge(e2);
    assert_eq!(HashMap::from([(1, v1), (2, v2), (3, v3)]), g.vertices);
    assert_eq!(HashMap::from([(1, e1), (2, e2)]), g.edges);

    let mut s = sets::Graph::new();
    let w1 = sets::Vertex { id: 1 };
    let w2 = sets::Vertex { id: 2 };
    let w3 = sets::Vertex { id: 3 };
    let f1 = sets::Edge { id: 1, source: w1, target: w2 };
    let f2 = sets::Edge { id: 2, source: w2, target: w3 };
    s.add_vertex(w1);
    s.add_vertex(w2);
    s.add_vertex(w3);
    s.add_edge(f1);
    s.add_edge(f2);
    assert_eq!(set_of(s.vertices()), vec![w1, w2, w3].into_iter().collect());
    assert_eq!(set_of(s.edges()), vec![f1, f2].into_iter().collect());
}

#[test]
fn graph_undo_operations() {
    let mut g = Graph::new();
    let mut history = Vec::new();
    let v1 = Vertex { id: 1 };
    let v2 = Vertex { id: 2 };
    let v3 = Vertex { id: 3 };
    history.extend(g.add_vertex(v1).operations);
    history.extend(g.add_vertex(v2).operations);
    history.extend(g.add_vertex(v3).operations);
    let e1 = Edge { id: 1, source: v1.id, target: v2.id };
    let e2 = Edge { id: 2, source: v2.id, target: v3.id };
    history.extend(g.add_edge(e1).operations);
    history.extend(g.add_edge(e2).operations);
    for op in history.into_iter() {
        g.apply(op.invert());
    }
    assert_eq!(g.vertices, HashMap::new());
    assert_eq!(g.edges, HashMap::new());

    let mut s = sets::Graph::new();
    let mut recorded = Vec::new();
    let w1 = sets::Vertex { id: 1 };
    let w2 = sets::Vertex { id: 2 };
    let w3 = sets::Vertex { id: 3 };
    recorded.extend(s.add_vertex(w1).operations);
    recorded.extend(s.add_vertex(w2).operations);
    recorded.extend(s.add_vertex(w3).operations);
    let f1 = sets::Edge { id: 1, source: w1, target: w2 };
    let f2 = sets::Edge { id: 2, source: w2, target: w3 };
    recorded.extend(s.add_edge(f1).operations);
    recorded.extend(s.add_edge(f2).operations);
    for op in recorded.into_iter() {
        s.apply(op.invert());
    }
    assert_eq!(set_of(s.vertices()), HashSet::new());
    assert_eq!(set_of(s.edges()), HashSet::new());
}

#[test]
fn graph_remove_vertex_removes_all_incident_edges() {
    let mut g = Graph::new();
    let v1 = Vertex { id: 1 };
    let v2 = Vertex { id: 2 };
    let v3 = Vertex { id: 3 };
    let e1 = Edge { id: 1, source: v1.id, target: v2.id };
    let e2 = Edge { id: 2, source: v1.id, target: v3.id };
    g.add_vertex(v1);
    g.add_vertex(v2);
    g.add_vertex(v3);
    g.add_edge(e1);
    g.add_edge(e2);
    assert_eq!(HashMap::from([(1, v1), (2, v2), (3, v3)]), g.vertices);
    assert_eq!(HashMap::from([(1, e1), (2, e2)]), g.edges);
    g.remove_vertex(v1);
    assert_eq!(HashMap::from([(2, v2), (3, v3)]), g.vertices);
    assert_eq!(HashMap::new(), g.edges);

    let mut s = sets::Graph::new();
    let w1 = sets::Vertex { id: 1 };
    let w2 = sets::Vertex { id: 2 };
    let w3 = sets::Vertex { id: 3 };
    let f1 = sets::Edge { id: 1, source: w1, target: w2 };
    let f2 = sets::Edge { id: 2, source: w1, target: w3 };
    s.add_vertex(w1);
    s.add_vertex(w2);
    s.add_vertex(w3);
    s.add_edge(f1);
    s.add_edge(f2);
    assert_eq!(set_of(s.vertices()), vec![w1, w2, w3].into_iter().collect());
    assert_eq!(set_of(s.edges()), vec![f1, f2].into_iter().collect());
    s.remove_vertex(w1);
    assert_eq!(set_of(s.vertices()), vec![w2, w3].into_iter().collect());
    assert_eq!(set_of(s.edges()), HashSet::new());
}

fn three_vertices() -> Graph {
    let mut g = Graph::new();
    for id in [0, 1, 2] {
        g.add_vertex(Vertex { id });
    }
    g
}

#[test]
fn remove_vertex_reports_cascade_in_ascending_edge_order() {
    let mut g = three_vertices();
    let e9 = Edge { id: 9, source: 0, target: 1 };
    let e4 = Edge { id: 4, source: 2, target: 0 };
    let e7 = Edge { id: 7, source: 1, target: 2 };
    let e5 = Edge { id: 5, source: 0, target: 0 };
    for e in [e9, e4, e7, e5] {
        g.add_edge(e);
    }
    let d = g.remove_vertex(Vertex { id: 0 });
    assert_eq!(
        vec![
            GraphOperation::RemoveVertex(Vertex { id: 0 }),
            GraphOperation::RemoveEdge(e4),
            GraphOperation::RemoveEdge(e5),
            GraphOperation::RemoveEdge(e9),
        ],
        d.operations
    );
    assert_eq!(HashMap::from([(7, e7)]), g.edges);
    assert_eq!(HashMap::from([(1, Vertex { id: 1 }), (2, Vertex { id: 2 })]), g.vertices);
}

#[test]
fn removing_an_absent_vertex_or_edge_is_a_no_op() {
    let mut g = three_vertices();
    let before = g.clone();
    assert!(g.remove_vertex(Vertex { id: 8 }).operations.is_empty());
    assert!(g.remove_edge(Edge { id: 3, source: 0, target: 1 }).operations.is_empty());
    assert_eq!(before, g);
}

#[test]
fn re_adding_an_existing_id_is_a_no_op() {
    let mut g = three_vertices();
    let e = Edge { id: 0, source: 0, target: 1 };
    assert_eq!(vec![GraphOperation::AddEdge(e)], g.add_edge(e).operations);
    let before = g.clone();
    assert!(g.add_vertex(Vertex { id: 1 }).operations.is_empty());
    assert!(g.add_edge(Edge { id: 0, source: 2, target: 2 }).operations.is_empty());
    assert_eq!(before, g);
}

#[test]
fn apply_all_concatenates_effective_diffs() {
    let mut g = Graph::new();
    let ops = vec![
        GraphOperation::AddVertex(Vertex { id: 0 }),
        GraphOperation::AddVertex(Vertex { id: 0 }),
        GraphOperation::AddVertex(Vertex { id: 1 }),
        GraphOperation::AddEdge(Edge { id: 0, source: 0, target: 1 }),
        GraphOperation::RemoveVertex(Vertex { id: 1 }),
    ];
    let d = g.apply_all(ops);
    assert_eq!(
        vec![
            GraphOperation::AddVertex(Vertex { id: 0 }),
            GraphOperation::AddVertex(Vertex { id: 1 }),
            GraphOperation::AddEdge(Edge { id: 0, source: 0, target: 1 }),
            GraphOperation::RemoveVertex(Vertex { id: 1 }),
            GraphOperation::RemoveEdge(Edge { id: 0, source: 0, target: 1 }),
        ],
        d.operations
    );
    assert_eq!(HashMap::from([(0, Vertex { id: 0 })]), g.vertices);
    assert!(g.edges.is_empty());
}

#[test]
fn invert_swaps_add_and_remove() {
    let v = Vertex { id: 4 };
    let e = Edge { id: 2, source: 4, target: 4 };
    assert_eq!(GraphOperation::RemoveVertex(v), GraphOperation::AddVertex(v).invert());
    assert_eq!(GraphOperation::AddVertex(v), GraphOperation::RemoveVertex(v).invert());
    assert_eq!(GraphOperation::RemoveEdge(e), GraphOperation::AddEdge(e).invert());
    assert_eq!(GraphOperation::AddEdge(e), GraphOperation::RemoveEdge(e).invert());
    let w = sets::Vertex { id: 4 };
    assert_eq!(sets::Operation::RemoveVertex(w), sets::Operation::AddVertex(w).invert());
}

#[test]
fn resolve_vertex_trims_parses_and_requires_membership() {
    let g = three_vertices();
    assert_eq!(Some(1), g.resolve_vertex(" 1 "));
    assert_eq!(Some(2), g.resolve_vertex("+2"));
    assert_eq!(None, g.resolve_vertex("3"));
    assert_eq!(None, g.resolve_vertex("x"));
    assert_eq!(None, g.resolve_vertex(""));
    assert_eq!(None, g.resolve_vertex("99999999999999999999"));
    assert_eq!(Some(0), g.resolve_trimmed_vertex("0"));
    assert_eq!(None, g.resolve_trimmed_vertex(" 0"));
}

#[test]
fn set_graph_remove_vertex_keeps_other_edges() {
    let mut s = sets::Graph::new();
    let a = sets::Vertex { id: 1 };
    let b = sets::Vertex { id: 2 };
    let c = sets::Vertex { id: 3 };
    for v in [a, b, c] {
        s.add_vertex(v);
    }
    let ab = sets::Edge { id: 1, source: a, target: b };
    let bc = sets::Edge { id: 2, source: b, target: c };
    s.add_edge(ab);
    s.add_edge(bc);
    let d = s.remove_vertex(a);
    assert_eq!(vec![sets::Operation::RemoveVertex(a), sets::Operation::RemoveEdge(ab)], d.operations);
    assert_eq!(set_of(s.edges()), vec![bc].into_iter().collect());
    assert!(s.add_vertex(b).operations.is_empty());
}

#[test]
fn set_graph_edge_ids_are_unique() {
    let mut s = sets::Graph::new();
    let a = sets::Vertex { id: 1 };
    let b = sets::Vertex { id: 2 };
    let c = sets::Vertex { id: 3 };
    for v in [a, b, c] {
        s.add_vertex(v);
    }
    let first = sets::Edge { id: 1, source: a, target: b };
    let same_id = sets::Edge { id: 1, source: b, target: c };
    assert_eq!(vec![sets::Operation::AddEdge(first)], s.add_edge(first).operations);
    assert!(s.add_edge(same_id).operations.is_empty());
    assert_eq!(set_of(s.edges()), vec![first].into_iter().collect());
    // Removal goes by id: the stored edge leaves even when the payload differs.
    assert_eq!(vec![sets::Operation::RemoveEdge(same_id)], s.remove_edge(same_id).operations);
    assert_eq!(set_of(s.edges()), HashSet::new());
    assert!(s.remove_edge(first).operations.is_empty());
}

#[test]
fn resolve_vertex_trims_unicode_white_space() {
    let g = three_vertices();
    assert_eq!(Some(1), g.resolve_vertex("\u{3000}1\t\n"));
    assert_eq!(Some(2), g.resolve_vertex("\u{a0}2\u{2029}"));
    assert_eq!(None, g.resolve_vertex("\u{200b}2"));
}
