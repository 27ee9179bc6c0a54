//! A graph whose vertices and edges are compared as whole values: an edge
//! names its endpoint vertices, and two edges are the same only when id and
//! endpoints agree. The contents are kept as sets, each stored as a vector
//! without repeats.

use vstd::prelude::*;

verus! {

#[derive(Debug, Copy, Clone, PartialEq, Eq, Hash, Structural)]
pub struct Vertex {
    pub id: i64,
}

#[derive(Debug, Copy, Clone, PartialEq, Eq, Hash, Structural)]
pub struct Edge {
    pub id: i64,
    pub source: Vertex,
    pub target: Vertex,
}

#[derive(Debug)]
pub struct Graph {
    vertices: Vec<Vertex>,
    edges: Vec<Edge>,
}

#[derive(Debug, Copy, Clone, PartialEq, Eq)]
pub enum Operation {
    AddVertex(Vertex),
    RemoveVertex(Vertex),
    AddEdge(Edge),
    RemoveEdge(Edge),
}

#[derive(Debug)]
pub struct Diff {
    pub operations: Vec<Operation>,
}

/// The contents of a graph: a set of vertices and a set of edges.
pub struct GraphSets {
    pub vertices: Set<Vertex>,
    pub edges: Set<Edge>,
}

impl View for Graph {
    type V = GraphSets;

    closed spec fn view(&self) -> GraphSets {
        GraphSets { vertices: self.vertices@.to_set(), edges: self.edges@.to_set() }
    }
}

/// Some edge of the set has id `id`.
pub open spec fn has_edge_id(edges: Set<Edge>, id: i64) -> bool {
    exists|f: Edge| #[trigger] edges.contains(f) && f.id == id
}

/// The set without the edge that has id `id`.
pub open spec fn without_edge_id(edges: Set<Edge>, id: i64) -> Set<Edge> {
    edges.filter(|f: Edge| f.id != id)
}

pub open spec fn touches(e: Edge, v: Vertex) -> bool {
    e.source == v || e.target == v
}

pub open spec fn inverse(op: Operation) -> Operation {
    match op {
        Operation::AddVertex(v) => Operation::RemoveVertex(v),
        Operation::RemoveVertex(v) => Operation::AddVertex(v),
        Operation::AddEdge(e) => Operation::RemoveEdge(e),
        Operation::RemoveEdge(e) => Operation::AddEdge(e),
    }
}

/// `rest` removes, once each, exactly the edges of `edges` that touch `v`.
pub open spec fn cascade(rest: Seq<Operation>, edges: Set<Edge>, v: Vertex) -> bool {
    &&& rest.no_duplicates()
    &&& forall|k: int|
        #![trigger rest[k]]
        0 <= k < rest.len() ==> rest[k] is RemoveEdge && edges.contains(rest[k]->RemoveEdge_0)
            && touches(rest[k]->RemoveEdge_0, v)
    &&& forall|e: Edge|
        #![trigger rest.contains(Operation::RemoveEdge(e))]
        edges.contains(e) && touches(e, v) ==> rest.contains(Operation::RemoveEdge(e))
}

impl Operation {
    pub fn invert(self) -> (r: Operation)
        ensures
            r == inverse(self),
    {
        match self {
            Operation::AddVertex(v) => Operation::RemoveVertex(v),
            Operation::RemoveVertex(v) => Operation::AddVertex(v),
            Operation::AddEdge(e) => Operation::RemoveEdge(e),
            Operation::RemoveEdge(e) => Operation::AddEdge(e),
        }
    }
}

fn vertex_position(vs: &Vec<Vertex>, v: Vertex) -> (r: Option<usize>)
    ensures
        match r {
            Some(i) => i < vs@.len() && vs@[i as int] == v,
            None => !vs@.contains(v),
        },
{
    let mut i: usize = 0;
    while i < vs.len()
        invariant
            i <= vs.len(),
            forall|j: int| 0 <= j < i ==> vs@[j] != v,
        decreases vs.len() - i,
    {
        if vs[i] == v {
            return Some(i);
        }
        i = i + 1;
    }
    None
}

fn edge_with_id(es: &Vec<Edge>, id: i64) -> (r: Option<usize>)
    ensures
        match r {
            Some(i) => i < es@.len() && es@[i as int].id == id,
            None => forall|k: int| 0 <= k < es@.len() ==> es@[k].id != id,
        },
{
    let mut i: usize = 0;
    while i < es.len()
        invariant
            i <= es.len(),
            forall|j: int| 0 <= j < i ==> es@[j].id != id,
        decreases es.len() - i,
    {
        if es[i].id == id {
            return Some(i);
        }
        i = i + 1;
    }
    None
}

/// No two edges of the sequence share an id.
pub open spec fn ids_distinct(s: Seq<Edge>) -> bool {
    forall|a: int, b: int| 0 <= a < b < s.len() ==> s[a].id != s[b].id
}

/// Removing an element keeps the ids of the rest distinct.
proof fn lemma_remove_keeps_ids(s: Seq<Edge>, i: int)
    requires
        ids_distinct(s),
        0 <= i < s.len(),
    ensures
        ids_distinct(s.remove(i)),
{
    let r = s.remove(i);
    assert forall|a: int, b: int| 0 <= a < b < r.len() implies r[a].id != r[b].id by {
        let a0 = if a < i { a } else { a + 1 };
        let b0 = if b < i { b } else { b + 1 };
        assert(r[a] == s[a0] && r[b] == s[b0]);
    }
}

/// Removing the element at `i` from a sequence without repeats removes
/// exactly that element from its set.
proof fn lemma_remove_at<T>(s: Seq<T>, i: int)
    requires
        s.no_duplicates(),
        0 <= i < s.len(),
    ensures
        s.remove(i).no_duplicates(),
        s.remove(i).to_set() == s.to_set().remove(s[i]),
{
    let r = s.remove(i);
    assert forall|a: int, b: int| 0 <= a < b < r.len() implies r[a] != r[b] by {
        let a0 = if a < i { a } else { a + 1 };
        let b0 = if b < i { b } else { b + 1 };
        assert(r[a] == s[a0] && r[b] == s[b0]);
    }
    assert forall|x: T| r.to_set().contains(x) <==> s.to_set().remove(s[i]).contains(x) by {
        if r.to_set().contains(x) {
            let k = choose|k: int| 0 <= k < r.len() && r[k] == x;
            let k0 = if k < i { k } else { k + 1 };
            assert(s[k0] == x);
        }
        if s.to_set().remove(s[i]).contains(x) {
            let k = choose|k: int| 0 <= k < s.len() && s[k] == x;
            assert(k != i);
            if k < i {
                assert(r[k] == x);
            } else {
                assert(r[k - 1] == x);
            }
        }
    }
    assert(r.to_set() =~= s.to_set().remove(s[i]));
}

/// Appending an element that a sequence without repeats lacks.
proof fn lemma_push_new<T>(s: Seq<T>, x: T)
    requires
        s.no_duplicates(),
        !s.contains(x),
    ensures
        s.push(x).no_duplicates(),
        s.push(x).to_set() == s.to_set().insert(x),
{
    let r = s.push(x);
    assert forall|a: int, b: int| 0 <= a < b < r.len() implies r[a] != r[b] by {
        if b == s.len() {
            assert(s.contains(r[a]));
        } else {
            assert(r[a] == s[a] && r[b] == s[b]);
        }
    }
    s.lemma_push_to_set_commute(x);
}

impl Graph {
    /// Neither vector holds a repeat, and no two edges share an id.
    pub closed spec fn wf(self) -> bool {
        &&& self.vertices@.no_duplicates()
        &&& self.edges@.no_duplicates()
        &&& ids_distinct(self.edges@)
    }

    pub fn new() -> (g: Graph)
        ensures
            g.wf(),
            g@.vertices == Set::<Vertex>::empty(),
            g@.edges == Set::<Edge>::empty(),
    {
        let g = Graph { vertices: Vec::new(), edges: Vec::new() };
        proof {
            assert(g.vertices@.to_set() =~= Set::<Vertex>::empty());
            assert(g.edges@.to_set() =~= Set::<Edge>::empty());
        }
        g
    }

    /// The vertices, each once.
    pub fn vertices(&self) -> (r: &Vec<Vertex>)
        requires
            self.wf(),
        ensures
            r@.no_duplicates(),
            r@.to_set() == self@.vertices,
    {
        &self.vertices
    }

    /// The edges, each once.
    pub fn edges(&self) -> (r: &Vec<Edge>)
        requires
            self.wf(),
        ensures
            r@.no_duplicates(),
            r@.to_set() == self@.edges,
    {
        &self.edges
    }

    pub fn add_vertex(&mut self, v: Vertex) -> (d: Diff)
        requires
            old(self).wf(),
        ensures
            final(self).wf(),
            final(self)@.vertices == old(self)@.vertices.insert(v),
            final(self)@.edges == old(self)@.edges,
            d.operations@ == if old(self)@.vertices.contains(v) {
                Seq::<Operation>::empty()
            } else {
                seq![Operation::AddVertex(v)]
            },
    {
        let mut ops: Vec<Operation> = Vec::new();
        match vertex_position(&self.vertices, v) {
            Some(i) => {
                proof {
                    assert(self@.vertices.contains(v));
                    assert(self@.vertices.insert(v) =~= self@.vertices);
                }
            },
            None => {
                proof {
                    lemma_push_new(self.vertices@, v);
                }
                self.vertices.push(v);
                ops.push(Operation::AddVertex(v));
            },
        }
        Diff { operations: ops }
    }

    /// Removes a vertex and every edge that touches it.
    pub fn remove_vertex(&mut self, v: Vertex) -> (d: Diff)
        requires
            old(self).wf(),
        ensures
            final(self).wf(),
            final(self)@.vertices == old(self)@.vertices.remove(v),
            old(self)@.vertices.contains(v) ==> {
                &&& final(self)@.edges == old(self)@.edges.filter(|e: Edge| !touches(e, v))
                &&& d.operations@.len() >= 1
                &&& d.operations@[0] == Operation::RemoveVertex(v)
                &&& cascade(d.operations@.drop_first(), old(self)@.edges, v)
            },
            !old(self)@.vertices.contains(v) ==> {
                &&& final(self)@.edges == old(self)@.edges
                &&& d.operations@.len() == 0
            },
    {
        let mut ops: Vec<Operation> = Vec::new();
        match vertex_position(&self.vertices, v) {
            None => {
                proof {
                    assert(self@.vertices.remove(v) =~= self@.vertices);
                }
            },
            Some(p) => {
                proof {
                    lemma_remove_at(self.vertices@, p as int);
                }
                self.vertices.remove(p);
                ops.push(Operation::RemoveVertex(v));
                let ghost es = self.edges@;
                let ghost mut rest: Seq<Operation> = Seq::empty();
                let mut kept: Vec<Edge> = Vec::new();
                let mut i: usize = 0;
                while i < self.edges.len()
                    invariant
                        self.wf(),
                        es == self.edges@,
                        i <= es.len(),
                        ops@ == seq![Operation::RemoveVertex(v)] + rest,
                        kept@.no_duplicates(),
                        ids_distinct(kept@),
                        forall|x: Edge|
                            #![trigger kept@.contains(x)]
                            kept@.contains(x) <==> exists|j: int|
                                0 <= j < i && es[j] == x && !touches(x, v),
                        rest.no_duplicates(),
                        forall|k: int|
                            #![trigger rest[k]]
                            0 <= k < rest.len() ==> rest[k] is RemoveEdge && exists|j: int|
                                0 <= j < i && es[j] == rest[k]->RemoveEdge_0 && touches(
                                    es[j],
                                    v,
                                ),
                        forall|j: int|
                            #![trigger es[j]]
                            0 <= j < i && touches(es[j], v) ==> rest.contains(
                                Operation::RemoveEdge(es[j]),
                            ),
                    decreases es.len() - i,
                {
                    let e = self.edges[i];
                    proof {
                        assert forall|j: int| 0 <= j < i implies es[j] != e by {
                            assert(es[i as int] == e);
                        }
                    }
                    if e.source == v || e.target == v {
                        let ghost prev = rest;
                        proof {
                            assert(!rest.contains(Operation::RemoveEdge(e)));
                            lemma_push_new(rest, Operation::RemoveEdge(e));
                            rest = rest.push(Operation::RemoveEdge(e));
                        }
                        ops.push(Operation::RemoveEdge(e));
                        proof {
                            assert(ops@ =~= seq![Operation::RemoveVertex(v)] + rest);
                            assert forall|x: Edge|
                                #![trigger kept@.contains(x)]
                                kept@.contains(x) <==> exists|j: int|
                                    0 <= j < i + 1 && es[j] == x && !touches(x, v) by {
                                if exists|j: int| 0 <= j < i + 1 && es[j] == x && !touches(x, v) {
                                    let j = choose|j: int|
                                        0 <= j < i + 1 && es[j] == x && !touches(x, v);
                                    assert(j != i);
                                }
                            }
                            assert forall|j: int|
                                #![trigger es[j]]
                                0 <= j < i + 1 && touches(es[j], v) implies rest.contains(
                                Operation::RemoveEdge(es[j]),
                            ) by {
                                if j == i {
                                    assert(rest[rest.len() - 1] == Operation::RemoveEdge(e));
                                } else {
                                    assert(prev.contains(Operation::RemoveEdge(es[j])));
                                    let k = choose|k: int|
                                        0 <= k < prev.len() && prev[k] == Operation::RemoveEdge(
                                            es[j],
                                        );
                                    assert(rest[k] == Operation::RemoveEdge(es[j]));
                                }
                            }
                        }
                    } else {
                        let ghost prevk = kept@;
                        proof {
                            assert(!kept@.contains(e));
                            lemma_push_new(kept@, e);
                            assert forall|a: int, b: int|
                                0 <= a < b < prevk.push(e).len() implies prevk.push(e)[a].id
                                != prevk.push(e)[b].id by {
                                if b == prevk.len() {
                                    assert(prevk.contains(prevk[a]));
                                    let j = choose|j: int|
                                        0 <= j < i && es[j] == prevk[a] && !touches(prevk[a], v);
                                    assert(es[j].id != es[i as int].id);
                                } else {
                                    assert(prevk.push(e)[a] == prevk[a]);
                                }
                            }
                        }
                        kept.push(e);
                        proof {
                            assert forall|x: Edge|
                                #![trigger kept@.contains(x)]
                                kept@.contains(x) <==> exists|j: int|
                                    0 <= j < i + 1 && es[j] == x && !touches(x, v) by {
                                if kept@.contains(x) {
                                    let k = choose|k: int| 0 <= k < kept@.len() && kept@[k] == x;
                                    if k < prevk.len() {
                                        assert(prevk[k] == x);
                                        assert(prevk.contains(x));
                                    } else {
                                        assert(es[i as int] == x);
                                    }
                                }
                                if exists|j: int| 0 <= j < i + 1 && es[j] == x && !touches(x, v) {
                                    let j = choose|j: int|
                                        0 <= j < i + 1 && es[j] == x && !touches(x, v);
                                    if j < i {
                                        assert(prevk.contains(x));
                                        let k = choose|k: int|
                                            0 <= k < prevk.len() && prevk[k] == x;
                                        assert(kept@[k] == x);
                                    } else {
                                        assert(kept@[prevk.len() as int] == x);
                                    }
                                }
                            }
                        }
                    }
                    i = i + 1;
                }
                self.edges = kept;
                proof {
                    let gone = ops@.drop_first();
                    assert(gone =~= rest);
                    assert(self@.edges =~= es.to_set().filter(|e: Edge| !touches(e, v)));
                    assert forall|e: Edge|
                        #![trigger rest.contains(Operation::RemoveEdge(e))]
                        es.to_set().contains(e) && touches(e, v) implies rest.contains(
                        Operation::RemoveEdge(e),
                    ) by {
                        let j = choose|j: int| 0 <= j < es.len() && es[j] == e;
                    }
                }
            },
        }
        Diff { operations: ops }
    }

    /// Applies one operation and returns the diff that took effect.
    pub fn apply(&mut self, operation: Operation) -> (d: Diff)
        requires
            old(self).wf(),
            operation matches Operation::AddEdge(e) ==> old(self)@.vertices.contains(e.source)
                && old(self)@.vertices.contains(e.target),
        ensures
            final(self).wf(),
            match operation {
                Operation::AddVertex(v) => final(self)@.vertices == old(self)@.vertices.insert(v)
                    && final(self)@.edges == old(self)@.edges && d.operations@ == if old(
                    self,
                )@.vertices.contains(v) {
                    Seq::<Operation>::empty()
                } else {
                    seq![operation]
                },
                Operation::RemoveVertex(v) => final(self)@.vertices == old(
                    self,
                )@.vertices.remove(v) && if old(self)@.vertices.contains(v) {
                    final(self)@.edges == old(self)@.edges.filter(|e: Edge| !touches(e, v))
                        && d.operations@.len() >= 1 && d.operations@[0] == operation && cascade(
                        d.operations@.drop_first(),
                        old(self)@.edges,
                        v,
                    )
                } else {
                    final(self)@.edges == old(self)@.edges && d.operations@.len() == 0
                },
                Operation::AddEdge(e) => final(self)@.vertices == old(self)@.vertices && if has_edge_id(
                    old(self)@.edges,
                    e.id,
                ) {
                    final(self)@.edges == old(self)@.edges && d.operations@ == Seq::<
                        Operation,
                    >::empty()
                } else {
                    final(self)@.edges == old(self)@.edges.insert(e) && d.operations@
                        == seq![operation]
                },
                Operation::RemoveEdge(e) => final(self)@.vertices == old(self)@.vertices
                    && final(self)@.edges == without_edge_id(old(self)@.edges, e.id)
                    && d.operations@ == if has_edge_id(old(self)@.edges, e.id) {
                    seq![operation]
                } else {
                    Seq::<Operation>::empty()
                },
            },
    {
        match operation {
            Operation::AddVertex(v) => self.add_vertex(v),
            Operation::RemoveVertex(v) => self.remove_vertex(v),
            Operation::AddEdge(e) => self.add_edge(e),
            Operation::RemoveEdge(e) => self.remove_edge(e),
        }
    }

    /// Removes the edge with the id of `e`, if there is one.
    pub fn remove_edge(&mut self, e: Edge) -> (d: Diff)
        requires
            old(self).wf(),
        ensures
            final(self).wf(),
            final(self)@.vertices == old(self)@.vertices,
            final(self)@.edges == without_edge_id(old(self)@.edges, e.id),
            d.operations@ == if has_edge_id(old(self)@.edges, e.id) {
                seq![Operation::RemoveEdge(e)]
            } else {
                Seq::<Operation>::empty()
            },
    {
        let mut ops: Vec<Operation> = Vec::new();
        let ghost es = self.edges@;
        match edge_with_id(&self.edges, e.id) {
            Some(i) => {
                proof {
                    lemma_remove_at(es, i as int);
                    lemma_remove_keeps_ids(es, i as int);
                    assert(es.to_set().contains(es[i as int]));
                }
                self.edges.remove(i);
                ops.push(Operation::RemoveEdge(e));
                proof {
                    assert forall|f: Edge|
                        self@.edges.contains(f) <==> without_edge_id(es.to_set(), e.id).contains(
                            f,
                        ) by {
                        if es.to_set().contains(f) && f != es[i as int] {
                            let k = choose|k: int| 0 <= k < es.len() && es[k] == f;
                            assert(k != i);
                            if k < i {
                                assert(f.id != es[i as int].id);
                            } else {
                                assert(f.id != es[i as int].id);
                            }
                        }
                    }
                    assert(self@.edges =~= without_edge_id(es.to_set(), e.id));
                }
            },
            None => {
                proof {
                    assert forall|f: Edge| es.to_set().contains(f) implies f.id != e.id by {
                        let k = choose|k: int| 0 <= k < es.len() && es[k] == f;
                    }
                    assert(self@.edges =~= without_edge_id(es.to_set(), e.id));
                }
            },
        }
        Diff { operations: ops }
    }

    /// Adds an edge between two vertices of the graph, unless an edge with
    /// its id is already present.
    pub fn add_edge(&mut self, e: Edge) -> (d: Diff)
        requires
            old(self).wf(),
            old(self)@.vertices.contains(e.source),
            old(self)@.vertices.contains(e.target),
        ensures
            final(self).wf(),
            final(self)@.vertices == old(self)@.vertices,
            has_edge_id(old(self)@.edges, e.id) ==> final(self)@.edges == old(self)@.edges
                && d.operations@ == Seq::<Operation>::empty(),
            !has_edge_id(old(self)@.edges, e.id) ==> final(self)@.edges == old(
                self,
            )@.edges.insert(e) && d.operations@ == seq![Operation::AddEdge(e)],
    {
        let mut ops: Vec<Operation> = Vec::new();
        let ghost es = self.edges@;
        match edge_with_id(&self.edges, e.id) {
            Some(i) => {
                proof {
                    assert(es.to_set().contains(es[i as int]));
                }
            },
            None => {
                proof {
                    assert(!es.contains(e));
                    lemma_push_new(es, e);
                    assert forall|f: Edge| es.to_set().contains(f) implies f.id != e.id by {
                        let k = choose|k: int| 0 <= k < es.len() && es[k] == f;
                    }
                    assert forall|a: int, b: int|
                        0 <= a < b < es.push(e).len() implies es.push(e)[a].id != es.push(
                        e,
                    )[b].id by {
                        if b == es.len() {
                            assert(es.push(e)[a] == es[a]);
                        }
                    }
                }
                self.edges.push(e);
                ops.push(Operation::AddEdge(e));
            },
        }
        Diff { operations: ops }
    }
}

} // verus!
