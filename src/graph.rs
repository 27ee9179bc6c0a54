//! The graph document: vertices and edges keyed by integer ids, mutated one
//! operation at a time, each mutation reporting the diff that took effect.

pub mod graph;

use std::collections::HashMap;
use vstd::prelude::*;

verus! {

#[derive(Debug, Copy, Clone, PartialEq, Eq, Hash)]
pub struct Vertex {
    pub id: i64,
}

#[derive(Debug, Copy, Clone, PartialEq, Eq, Hash)]
pub struct Edge {
    pub id: i64,
    pub source: i64,
    pub target: i64,
}

#[derive(Debug, PartialEq, Eq, Clone)]
pub struct Graph {
    pub vertices: HashMap<i64, Vertex>,
    pub edges: HashMap<i64, Edge>,
}

#[derive(Debug, PartialEq, Eq, Clone, Copy)]
pub enum GraphOperation {
    AddVertex(Vertex),
    RemoveVertex(Vertex),
    AddEdge(Edge),
    RemoveEdge(Edge),
}

#[derive(Debug, Clone)]
pub struct Diff {
    pub operations: Vec<GraphOperation>,
}

/// The mathematical content of a graph: its two id-keyed mappings.
pub struct GraphView {
    pub vertices: Map<i64, Vertex>,
    pub edges: Map<i64, Edge>,
}

impl View for Graph {
    type V = GraphView;

    open spec fn view(&self) -> GraphView {
        GraphView { vertices: self.vertices@, edges: self.edges@ }
    }
}

/// The graph with no vertices and no edges.
pub open spec fn empty_graph() -> GraphView {
    GraphView { vertices: Map::empty(), edges: Map::empty() }
}

pub open spec fn incident(e: Edge, id: i64) -> bool {
    e.source == id || e.target == id
}

/// Every edge joins two vertices of the graph, and each entry is stored
/// under its own id.
pub open spec fn well_formed(g: GraphView) -> bool {
    &&& forall|k: i64| #[trigger]
        g.edges.contains_key(k) ==> {
            &&& g.vertices.contains_key(g.edges[k].source)
            &&& g.vertices.contains_key(g.edges[k].target)
            &&& g.edges[k].id == k
        }
    &&& forall|k: i64| #[trigger] g.vertices.contains_key(k) ==> g.vertices[k].id == k
}

/// The operation can be applied: an added edge must join existing vertices.
pub open spec fn applicable(g: GraphView, op: GraphOperation) -> bool {
    match op {
        GraphOperation::AddEdge(e) => g.vertices.contains_key(e.source)
            && g.vertices.contains_key(e.target),
        _ => true,
    }
}

/// The edges that survive the removal of vertex `id`.
pub open spec fn edges_without(edges: Map<i64, Edge>, id: i64) -> Map<i64, Edge> {
    edges.restrict(edges.dom().filter(|k: i64| !incident(edges[k], id)))
}

pub open spec fn strictly_ascending(s: Seq<i64>) -> bool {
    forall|i: int, j: int| 0 <= i < j < s.len() ==> s[i] < s[j]
}

/// Keys of the edges that touch vertex `id`.
pub open spec fn incident_keys(edges: Map<i64, Edge>, id: i64) -> Set<i64> {
    edges.dom().filter(|k: i64| incident(edges[k], id))
}

/// The elements of a finite set of ids, in ascending order.
pub open spec fn ascending(s: Set<i64>) -> Seq<i64> {
    choose|q: Seq<i64>| strictly_ascending(q) && q.to_set() == s
}

/// What removing vertex `v` from a graph that holds it reports: the vertex
/// removal, then one edge removal per incident edge, in ascending edge id.
pub open spec fn removal_diff(edges: Map<i64, Edge>, v: Vertex) -> Seq<GraphOperation> {
    seq![GraphOperation::RemoveVertex(v)] + ascending(incident_keys(edges, v.id)).map_values(
        |k: i64| GraphOperation::RemoveEdge(edges[k]),
    )
}

/// Two ascending sequences with the same elements are the same sequence.
proof fn lemma_ascending_unique(a: Seq<i64>, b: Seq<i64>)
    requires
        strictly_ascending(a),
        strictly_ascending(b),
        a.to_set() == b.to_set(),
    ensures
        a == b,
    decreases a.len(),
{
    if a.len() == 0 {
        if b.len() > 0 {
            assert(b.to_set().contains(b[0]));
        }
    } else if b.len() == 0 {
        assert(a.to_set().contains(a[0]));
    } else {
        assert(a.to_set().contains(b[0]));
        assert(b.to_set().contains(a[0]));
        let i = choose|i: int| 0 <= i < a.len() && a[i] == b[0];
        let j = choose|j: int| 0 <= j < b.len() && b[j] == a[0];
        assert(a[0] == b[0]);
        let a1 = a.drop_first();
        let b1 = b.drop_first();
        assert forall|x: i64| a1.to_set().contains(x) <==> b1.to_set().contains(x) by {
            if a1.to_set().contains(x) {
                let k = choose|k: int| 0 <= k < a1.len() && a1[k] == x;
                assert(a.to_set().contains(x));
                let m = choose|m: int| 0 <= m < b.len() && b[m] == x;
                assert(a[k + 1] == x);
                assert(m != 0);
                assert(b1[m - 1] == x);
            }
            if b1.to_set().contains(x) {
                let k = choose|k: int| 0 <= k < b1.len() && b1[k] == x;
                assert(b.to_set().contains(x));
                let m = choose|m: int| 0 <= m < a.len() && a[m] == x;
                assert(b[k + 1] == x);
                assert(m != 0);
                assert(a1[m - 1] == x);
            }
        }
        assert(a1.to_set() == b1.to_set());
        lemma_ascending_unique(a1, b1);
        assert(a == seq![a[0]] + a1);
        assert(b == seq![b[0]] + b1);
    }
}

/// Any ascending enumeration of a set is the one that `ascending` picks.
proof fn lemma_ascending_is(q: Seq<i64>, s: Set<i64>)
    requires
        strictly_ascending(q),
        q.to_set() == s,
    ensures
        ascending(s) == q,
{
    let a = ascending(s);
    assert(strictly_ascending(a) && a.to_set() == s);
    lemma_ascending_unique(a, q);
}

/// The diff that one operation reports: what took effect, no-ops left out.
pub open spec fn step_diff(g: GraphView, op: GraphOperation) -> Seq<GraphOperation> {
    match op {
        GraphOperation::AddVertex(v) => if g.vertices.contains_key(v.id) {
            Seq::empty()
        } else {
            seq![op]
        },
        GraphOperation::RemoveVertex(v) => if g.vertices.contains_key(v.id) {
            removal_diff(g.edges, v)
        } else {
            Seq::empty()
        },
        GraphOperation::AddEdge(e) => if g.edges.contains_key(e.id) {
            Seq::empty()
        } else {
            seq![op]
        },
        GraphOperation::RemoveEdge(e) => if g.edges.contains_key(e.id) {
            seq![op]
        } else {
            Seq::empty()
        },
    }
}

/// The graph after a sequence of operations, applied in order.
pub open spec fn run(g: GraphView, ops: Seq<GraphOperation>) -> GraphView
    decreases ops.len(),
{
    if ops.len() == 0 {
        g
    } else {
        step(run(g, ops.drop_last()), ops.last())
    }
}

/// The concatenated diffs of a sequence of operations.
pub open spec fn run_diff(g: GraphView, ops: Seq<GraphOperation>) -> Seq<GraphOperation>
    decreases ops.len(),
{
    if ops.len() == 0 {
        Seq::empty()
    } else {
        run_diff(g, ops.drop_last()) + step_diff(run(g, ops.drop_last()), ops.last())
    }
}

/// Each operation of the sequence can be applied when its turn comes.
pub open spec fn runs_applicable(g: GraphView, ops: Seq<GraphOperation>) -> bool {
    forall|i: int| 0 <= i < ops.len() ==> applicable(#[trigger] run(g, ops.take(i)), ops[i])
}

pub open spec fn inverses(ops: Seq<GraphOperation>) -> Seq<GraphOperation> {
    ops.map_values(|op: GraphOperation| inverse(op))
}

pub open spec fn is_addition(op: GraphOperation) -> bool {
    op is AddVertex || op is AddEdge
}

pub open spec fn is_removal(op: GraphOperation) -> bool {
    op is RemoveVertex || op is RemoveEdge
}

/// The decimal integer that a string spells: an optional sign, then one or
/// more ASCII digits.
pub open spec fn decimal_value(s: Seq<char>) -> Option<int> {
    if s.len() > 0 && s[0] == '-' && all_digits(s.drop_first()) {
        Some(-digits_value(s.drop_first()))
    } else if s.len() > 0 && s[0] == '+' && all_digits(s.drop_first()) {
        Some(digits_value(s.drop_first()))
    } else if all_digits(s) {
        Some(digits_value(s))
    } else {
        None
    }
}

pub open spec fn all_digits(s: Seq<char>) -> bool {
    s.len() > 0 && forall|i: int| 0 <= i < s.len() ==> '0' <= #[trigger] s[i] <= '9'
}

pub open spec fn digits_value(s: Seq<char>) -> int
    decreases s.len(),
{
    if s.len() == 0 {
        0
    } else {
        digits_value(s.drop_last()) * 10 + (s.last() as int - '0' as int)
    }
}

/// The `i64` that a string spells, if it spells one in range.
pub open spec fn parsed_i64(s: Seq<char>) -> Option<i64> {
    match decimal_value(s) {
        Some(n) => if i64::MIN <= n <= i64::MAX {
            Some(n as i64)
        } else {
            None
        },
        None => None,
    }
}

/// The vertex id that `text` names, around white space, if the graph has
/// that vertex.
pub open spec fn resolved(g: GraphView, text: Seq<char>) -> Option<i64> {
    match parsed_i64(trim_of(text)) {
        Some(n) => if g.vertices.contains_key(n) {
            Some(n)
        } else {
            None
        },
        None => None,
    }
}

/// The characters with the Unicode `White_Space` property.
pub open spec fn is_white_space(c: char) -> bool {
    ('\u{9}' <= c && c <= '\u{d}') || c == '\u{20}' || c == '\u{85}' || c == '\u{a0}'
        || c == '\u{1680}' || ('\u{2000}' <= c && c <= '\u{200a}') || c == '\u{2028}'
        || c == '\u{2029}' || c == '\u{202f}' || c == '\u{205f}' || c == '\u{3000}'
}

/// The string without its leading white space.
pub open spec fn trim_start_of(s: Seq<char>) -> Seq<char>
    decreases s.len(),
{
    if s.len() > 0 && is_white_space(s[0]) {
        trim_start_of(s.drop_first())
    } else {
        s
    }
}

/// The string without its trailing white space.
pub open spec fn trim_end_of(s: Seq<char>) -> Seq<char>
    decreases s.len(),
{
    if s.len() > 0 && is_white_space(s.last()) {
        trim_end_of(s.drop_last())
    } else {
        s
    }
}

/// The string without leading and trailing white space.
pub open spec fn trim_of(s: Seq<char>) -> Seq<char> {
    trim_end_of(trim_start_of(s))
}

/// Relies on `str::trim`: the string without leading and trailing characters
/// that have the Unicode `White_Space` property.
#[verifier::external_body]
fn trimmed(s: &str) -> (r: &str)
    ensures
        r@ == trim_of(s@),
{
    s.trim()
}

/// Relies on `<i64 as FromStr>::from_str`: an optional `+` or `-`, then
/// decimal digits, within the range of `i64`.
#[verifier::external_body]
fn parse_i64(s: &str) -> (r: Option<i64>)
    ensures
        r == parsed_i64(s@),
{
    s.parse::<i64>().ok()
}

/// The graph after one operation.
pub open spec fn step(g: GraphView, op: GraphOperation) -> GraphView {
    match op {
        GraphOperation::AddVertex(v) => if g.vertices.contains_key(v.id) {
            g
        } else {
            GraphView { vertices: g.vertices.insert(v.id, v), edges: g.edges }
        },
        GraphOperation::RemoveVertex(v) => if g.vertices.contains_key(v.id) {
            GraphView { vertices: g.vertices.remove(v.id), edges: edges_without(g.edges, v.id) }
        } else {
            g
        },
        GraphOperation::AddEdge(e) => if g.edges.contains_key(e.id) {
            g
        } else {
            GraphView { vertices: g.vertices, edges: g.edges.insert(e.id, e) }
        },
        GraphOperation::RemoveEdge(e) => if g.edges.contains_key(e.id) {
            GraphView { vertices: g.vertices, edges: g.edges.remove(e.id) }
        } else {
            g
        },
    }
}

pub open spec fn inverse(op: GraphOperation) -> GraphOperation {
    match op {
        GraphOperation::AddVertex(v) => GraphOperation::RemoveVertex(v),
        GraphOperation::RemoveVertex(v) => GraphOperation::AddVertex(v),
        GraphOperation::AddEdge(e) => GraphOperation::RemoveEdge(e),
        GraphOperation::RemoveEdge(e) => GraphOperation::AddEdge(e),
    }
}

impl GraphOperation {
    pub fn invert(self) -> (r: GraphOperation)
        ensures
            r == inverse(self),
    {
        match self {
            GraphOperation::AddVertex(v) => GraphOperation::RemoveVertex(v),
            GraphOperation::RemoveVertex(v) => GraphOperation::AddVertex(v),
            GraphOperation::AddEdge(e) => GraphOperation::RemoveEdge(e),
            GraphOperation::RemoveEdge(e) => GraphOperation::AddEdge(e),
        }
    }
}

/// Applying an applicable operation to a well-formed graph keeps it well
/// formed: no edge is ever left without both of its vertices.
pub proof fn lemma_step_well_formed(g: GraphView, op: GraphOperation)
    requires
        well_formed(g),
        applicable(g, op),
    ensures
        well_formed(step(g, op)),
{
    let h = step(g, op);
    match op {
        GraphOperation::RemoveVertex(v) => {
            if g.vertices.contains_key(v.id) {
                assert forall|k: i64| #[trigger] h.edges.contains_key(k) implies {
                    &&& h.vertices.contains_key(h.edges[k].source)
                    &&& h.vertices.contains_key(h.edges[k].target)
                    &&& h.edges[k].id == k
                } by {
                    assert(g.edges.contains_key(k) && !incident(g.edges[k], v.id));
                }
            }
        },
        _ => {},
    }
}

/// Every operation of an applicable run keeps a well-formed graph well formed.
pub proof fn lemma_run_well_formed(g: GraphView, ops: Seq<GraphOperation>)
    requires
        well_formed(g),
        runs_applicable(g, ops),
    ensures
        well_formed(run(g, ops)),
    decreases ops.len(),
{
    if ops.len() > 0 {
        let init = ops.drop_last();
        assert forall|i: int| 0 <= i < init.len() implies applicable(
            #[trigger] run(g, init.take(i)),
            init[i],
        ) by {
            assert(init.take(i) == ops.take(i));
            assert(applicable(run(g, ops.take(i)), ops[i]));
        }
        lemma_run_well_formed(g, init);
        assert(ops.take(ops.len() - 1) == init);
        assert(applicable(run(g, ops.take(ops.len() - 1)), ops[ops.len() - 1]));
        lemma_step_well_formed(run(g, init), ops.last());
    }
}

/// Removing a vertex removes exactly the edges whose source or target is
/// that vertex, leaves every other edge as it was, and keeps the graph well
/// formed.
pub proof fn lemma_remove_vertex_exact(g: GraphView, v: Vertex)
    requires
        g.vertices.contains_key(v.id),
    ensures
        forall|k: i64|
            #![trigger step(g, GraphOperation::RemoveVertex(v)).edges.contains_key(k)]
            step(g, GraphOperation::RemoveVertex(v)).edges.contains_key(k) <==> (
            g.edges.contains_key(k) && !incident(g.edges[k], v.id)),
        forall|k: i64|
            #![trigger step(g, GraphOperation::RemoveVertex(v)).edges[k]]
            step(g, GraphOperation::RemoveVertex(v)).edges.contains_key(k) ==> step(
                g,
                GraphOperation::RemoveVertex(v),
            ).edges[k] == g.edges[k],
        !step(g, GraphOperation::RemoveVertex(v)).vertices.contains_key(v.id),
        well_formed(g) ==> well_formed(step(g, GraphOperation::RemoveVertex(v))),
{
    if well_formed(g) {
        lemma_step_well_formed(g, GraphOperation::RemoveVertex(v));
    }
}

/// Adding a vertex or an edge whose id is already present changes nothing
/// and reports an empty diff.
pub proof fn lemma_readd_is_noop(g: GraphView, op: GraphOperation)
    requires
        match op {
            GraphOperation::AddVertex(v) => g.vertices.contains_key(v.id),
            GraphOperation::AddEdge(e) => g.edges.contains_key(e.id),
            _ => false,
        },
    ensures
        step(g, op) == g,
        step_diff(g, op) == Seq::<GraphOperation>::empty(),
{
}

/// From the empty graph, a run of additions leaves exactly the vertices
/// that its diff records as added, and its diff holds additions only.
proof fn lemma_additions_recorded(ops: Seq<GraphOperation>)
    requires
        forall|i: int| 0 <= i < ops.len() ==> is_addition(#[trigger] ops[i]),
    ensures
        forall|i: int|
            0 <= i < run_diff(empty_graph(), ops).len() ==> is_addition(
                #[trigger] run_diff(empty_graph(), ops)[i],
            ),
        forall|x: i64|
            #![trigger run(empty_graph(), ops).vertices.contains_key(x)]
            run(empty_graph(), ops).vertices.contains_key(x) ==> exists|i: int|
                0 <= i < run_diff(empty_graph(), ops).len() && run_diff(empty_graph(), ops)[i]
                    == GraphOperation::AddVertex(Vertex { id: x }),
    decreases ops.len(),
{
    if ops.len() > 0 {
        let init = ops.drop_last();
        assert forall|i: int| 0 <= i < init.len() implies is_addition(#[trigger] init[i]) by {
            assert(init[i] == ops[i]);
        }
        lemma_additions_recorded(init);
        let g = run(empty_graph(), init);
        let d0 = run_diff(empty_graph(), init);
        let d = run_diff(empty_graph(), ops);
        assert(d == d0 + step_diff(g, ops.last()));
        assert(is_addition(ops[ops.len() - 1]));
        assert forall|x: i64| #[trigger]
            run(empty_graph(), ops).vertices.contains_key(x) implies exists|i: int|
            0 <= i < d.len() && d[i] == GraphOperation::AddVertex(Vertex { id: x }) by {
            if g.vertices.contains_key(x) {
                let i = choose|i: int|
                    0 <= i < d0.len() && d0[i] == GraphOperation::AddVertex(Vertex { id: x });
                assert(d[i] == d0[i]);
            } else {
                assert(d[d0.len() as int] == ops.last());
            }
        }
    }
}

/// A run of removals never brings a vertex back, and removes the vertex of
/// each vertex removal in it.
proof fn lemma_removals_remove(g: GraphView, ops: Seq<GraphOperation>)
    requires
        forall|i: int| 0 <= i < ops.len() ==> is_removal(#[trigger] ops[i]),
    ensures
        forall|x: i64|
            #![trigger run(g, ops).vertices.contains_key(x)]
            run(g, ops).vertices.contains_key(x) ==> g.vertices.contains_key(x),
        forall|i: int|
            #![trigger ops[i]]
            0 <= i < ops.len() && ops[i] is RemoveVertex ==> !run(g, ops).vertices.contains_key(
                ops[i]->RemoveVertex_0.id,
            ),
        runs_applicable(g, ops),
    decreases ops.len(),
{
    if ops.len() > 0 {
        let init = ops.drop_last();
        assert forall|i: int| 0 <= i < init.len() implies is_removal(#[trigger] init[i]) by {
            assert(init[i] == ops[i]);
        }
        lemma_removals_remove(g, init);
        assert(is_removal(ops[ops.len() - 1]));
        assert forall|x: i64| #[trigger]
            run(g, ops).vertices.contains_key(x) implies g.vertices.contains_key(x) by {
            assert(run(g, init).vertices.contains_key(x));
        }
        assert forall|i: int|
            #![trigger ops[i]]
            0 <= i < ops.len() && ops[i] is RemoveVertex implies !run(
                g,
                ops,
            ).vertices.contains_key(ops[i]->RemoveVertex_0.id) by {
            if i < init.len() {
                assert(init[i] == ops[i]);
            }
        }
        assert forall|i: int| 0 <= i < ops.len() implies applicable(
            #[trigger] run(g, ops.take(i)),
            ops[i],
        ) by {
            assert(is_removal(ops[i]));
        }
    }
}

/// Starting from the empty graph, applying a run of additions and then the
/// inverse of each operation of the recorded diff, in recording order, is
/// always possible and gives back the empty graph.
pub proof fn lemma_undo_additions(ops: Seq<GraphOperation>)
    requires
        forall|i: int| 0 <= i < ops.len() ==> is_addition(#[trigger] ops[i]),
        runs_applicable(empty_graph(), ops),
    ensures
        runs_applicable(run(empty_graph(), ops), inverses(run_diff(empty_graph(), ops))),
        run(run(empty_graph(), ops), inverses(run_diff(empty_graph(), ops))) == empty_graph(),
{
    let g = run(empty_graph(), ops);
    let d = run_diff(empty_graph(), ops);
    let undo = inverses(d);
    lemma_additions_recorded(ops);
    assert forall|i: int| 0 <= i < undo.len() implies is_removal(#[trigger] undo[i]) by {
        assert(is_addition(d[i]));
    }
    lemma_removals_remove(g, undo);
    lemma_run_well_formed(empty_graph(), ops);
    lemma_run_well_formed(g, undo);
    let h = run(g, undo);
    assert forall|x: i64| !h.vertices.contains_key(x) by {
        if h.vertices.contains_key(x) {
            assert(g.vertices.contains_key(x));
            let i = choose|i: int|
                0 <= i < d.len() && d[i] == GraphOperation::AddVertex(Vertex { id: x });
            assert(undo[i] == GraphOperation::RemoveVertex(Vertex { id: x }));
        }
    }
    assert forall|k: i64| !h.edges.contains_key(k) by {
        if h.edges.contains_key(k) {
            assert(h.vertices.contains_key(h.edges[k].source));
        }
    }
    assert(h.vertices =~= Map::empty());
    assert(h.edges =~= Map::empty());
}

/// Inserts `k` into an ascending vector that lacks it, keeping it ascending.
fn insert_ascending(v: &mut Vec<i64>, k: i64)
    requires
        strictly_ascending(old(v)@),
        !old(v)@.contains(k),
    ensures
        strictly_ascending(final(v)@),
        forall|x: i64| final(v)@.contains(x) <==> old(v)@.contains(x) || x == k,
{
    let mut p: usize = 0;
    while p < v.len() && v[p] < k
        invariant
            p <= v.len(),
            forall|i: int| 0 <= i < p ==> v@[i] < k,
        decreases v.len() - p,
    {
        p = p + 1;
    }
    proof {
        if p < v.len() {
            assert(v@[p as int] != k);
        }
    }
    let ghost before = v@;
    v.insert(p, k);
    proof {
        assert forall|x: i64| v@.contains(x) <==> before.contains(x) || x == k by {
            if v@.contains(x) {
                let i = choose|i: int| 0 <= i < v@.len() && v@[i] == x;
                if i < p {
                    assert(before[i] == x);
                } else if i > p {
                    assert(before[i - 1] == x);
                }
            }
            if before.contains(x) {
                let i = choose|i: int| 0 <= i < before.len() && before[i] == x;
                if i < p {
                    assert(v@[i] == x);
                } else {
                    assert(v@[i + 1] == x);
                }
            }
            if x == k {
                assert(v@[p as int] == k);
            }
        }
    }
}

impl Default for Graph {
    fn default() -> (g: Self)
        ensures
            g@ == empty_graph(),
    {
        Graph::new()
    }
}

impl Graph {
    pub fn new() -> (g: Graph)
        ensures
            g@ == empty_graph(),
    {
        Graph { vertices: HashMap::new(), edges: HashMap::new() }
    }

    pub fn remove_edge(&mut self, e: Edge) -> (d: Diff)
        ensures
            final(self)@ == step(old(self)@, GraphOperation::RemoveEdge(e)),
            d.operations@ == if old(self)@.edges.contains_key(e.id) {
                seq![GraphOperation::RemoveEdge(e)]
            } else {
                Seq::<GraphOperation>::empty()
            },
    {
        let mut ops: Vec<GraphOperation> = Vec::new();
        if self.edges.contains_key(&e.id) {
            self.edges.remove(&e.id);
            ops.push(GraphOperation::RemoveEdge(e));
        }
        Diff { operations: ops }
    }

    /// Applies one operation and returns the diff that took effect.
    pub fn apply(&mut self, operation: GraphOperation) -> (d: Diff)
        requires
            applicable(old(self)@, operation),
        ensures
            final(self)@ == step(old(self)@, operation),
            d.operations@ == step_diff(old(self)@, operation),
    {
        match operation {
            GraphOperation::AddVertex(v) => self.add_vertex(v),
            GraphOperation::RemoveVertex(v) => self.remove_vertex(v),
            GraphOperation::AddEdge(e) => self.add_edge(e),
            GraphOperation::RemoveEdge(e) => self.remove_edge(e),
        }
    }

    /// Applies the operations in order and concatenates their diffs.
    pub fn apply_all(&mut self, operations: Vec<GraphOperation>) -> (d: Diff)
        requires
            runs_applicable(old(self)@, operations@),
        ensures
            final(self)@ == run(old(self)@, operations@),
            d.operations@ == run_diff(old(self)@, operations@),
    {
        let ghost g0 = self@;
        let mut ops: Vec<GraphOperation> = Vec::new();
        let mut i: usize = 0;
        while i < operations.len()
            invariant
                i <= operations.len(),
                runs_applicable(g0, operations@),
                self@ == run(g0, operations@.take(i as int)),
                ops@ == run_diff(g0, operations@.take(i as int)),
            decreases operations.len() - i,
        {
            let op = operations[i];
            let mut d = self.apply(op);
            proof {
                let next = operations@.take(i + 1);
                assert(next.drop_last() == operations@.take(i as int));
                assert(next.last() == op);
            }
            ops.append(&mut d.operations);
            i = i + 1;
        }
        proof {
            assert(operations@.take(operations@.len() as int) == operations@);
        }
        Diff { operations: ops }
    }

    /// The id that the text names, if it is a vertex of the graph; the text
    /// is taken as it stands, without trimming.
    pub fn resolve_trimmed_vertex(&self, id_text: &str) -> (r: Option<i64>)
        ensures
            r == match parsed_i64(id_text@) {
                Some(n) => if self@.vertices.contains_key(n) {
                    Some(n)
                } else {
                    None
                },
                None => None,
            },
    {
        match parse_i64(id_text) {
            Some(n) => if self.vertices.contains_key(&n) {
                Some(n)
            } else {
                None
            },
            None => None,
        }
    }

    /// The id that the text names, around white space, if it is a vertex of
    /// the graph.
    pub fn resolve_vertex(&self, vertex: &str) -> (r: Option<i64>)
        ensures
            r == resolved(self@, vertex@),
    {
        self.resolve_trimmed_vertex(trimmed(vertex))
    }

    /// Adds an edge between two existing vertices.
    pub fn add_edge(&mut self, e: Edge) -> (d: Diff)
        requires
            applicable(old(self)@, GraphOperation::AddEdge(e)),
        ensures
            final(self)@ == step(old(self)@, GraphOperation::AddEdge(e)),
            d.operations@ == if old(self)@.edges.contains_key(e.id) {
                Seq::<GraphOperation>::empty()
            } else {
                seq![GraphOperation::AddEdge(e)]
            },
    {
        let mut ops: Vec<GraphOperation> = Vec::new();
        if !self.edges.contains_key(&e.id) {
            self.edges.insert(e.id, e);
            ops.push(GraphOperation::AddEdge(e));
        }
        Diff { operations: ops }
    }

    /// The keys of the edges incident to vertex `id`, in ascending order.
    fn incident_edge_keys(&self, id: i64) -> (r: Vec<i64>)
        ensures
            strictly_ascending(r@),
            r@.to_set() == incident_keys(self.edges@, id),
    {
        let ghost edges = self.edges@;
        let mut sorted: Vec<i64> = Vec::new();
        for k in it: self.edges.keys()
            invariant
                edges == self.edges@,
                strictly_ascending(sorted@),
                forall|x: i64|
                    #![trigger sorted@.contains(x)]
                    sorted@.contains(x) <==> (exists|i: int|
                        0 <= i < it.index() && *it.seq()[i] == x) && edges.contains_key(x)
                        && incident(edges[x], id),
                forall|x: i64|
                    #![trigger edges.contains_key(x)]
                    edges.contains_key(x) ==> exists|i: int|
                        0 <= i < it.seq().len() && *it.seq()[i] == x,
                it.seq().map_values(|r: &i64| *r).no_duplicates(),
        {
            let key: i64 = *k;
            if let Some(e) = self.edges.get(&key) {
                if e.source == id || e.target == id {
                    insert_ascending(&mut sorted, key);
                }
            }
        }
        sorted
    }

    /// Removes a vertex and, with it, every edge that touches it.
    pub fn remove_vertex(&mut self, v: Vertex) -> (d: Diff)
        ensures
            final(self)@ == step(old(self)@, GraphOperation::RemoveVertex(v)),
            d.operations@ == if old(self)@.vertices.contains_key(v.id) {
                removal_diff(old(self)@.edges, v)
            } else {
                Seq::<GraphOperation>::empty()
            },
    {
        let mut ops: Vec<GraphOperation> = Vec::new();
        if self.vertices.contains_key(&v.id) {
            self.vertices.remove(&v.id);
            ops.push(GraphOperation::RemoveVertex(v));
            let keys = self.incident_edge_keys(v.id);
            let ghost e0 = self.edges@;
            let ghost vs = self.vertices@;
            proof {
                lemma_ascending_is(keys@, incident_keys(e0, v.id));
            }
            let mut i: usize = 0;
            while i < keys.len()
                invariant
                    i <= keys.len(),
                    strictly_ascending(keys@),
                    keys@.to_set() == incident_keys(e0, v.id),
                    self.vertices@ == vs,
                    ops@.len() == 1 + i,
                    ops@[0] == GraphOperation::RemoveVertex(v),
                    forall|j: int|
                        #![trigger keys@[j]]
                        0 <= j < i ==> e0.contains_key(keys@[j]) && ops@[j + 1]
                            == GraphOperation::RemoveEdge(e0[keys@[j]]),
                    self.edges@ == e0.remove_keys(keys@.take(i as int).to_set()),
                decreases keys.len() - i,
            {
                let k = keys[i];
                proof {
                    assert(keys@.to_set().contains(k));
                    assert forall|j: int| 0 <= j < i implies keys@.take(i as int)[j] != k by {
                        assert(keys@[j] < keys@[i as int]);
                    }
                    assert(!keys@.take(i as int).to_set().contains(k));
                }
                let removed = self.edges.remove(&k);
                if let Some(e) = removed {
                    ops.push(GraphOperation::RemoveEdge(e));
                }
                proof {
                    assert(keys@.take(i + 1) == keys@.take(i as int).push(k));
                    keys@.take(i as int).lemma_push_to_set_commute(k);
                    assert(self.edges@ =~= e0.remove_keys(keys@.take(i + 1).to_set()));
                }
                i = i + 1;
            }
            proof {
                assert(keys@.take(keys@.len() as int) == keys@);
                assert(self.edges@ =~= edges_without(e0, v.id));
                assert(ops@ =~= removal_diff(e0, v));
            }
        }
        Diff { operations: ops }
    }

    pub fn add_vertex(&mut self, v: Vertex) -> (d: Diff)
        ensures
            final(self)@ == step(old(self)@, GraphOperation::AddVertex(v)),
            d.operations@ == if old(self)@.vertices.contains_key(v.id) {
                Seq::<GraphOperation>::empty()
            } else {
                seq![GraphOperation::AddVertex(v)]
            },
    {
        let mut ops: Vec<GraphOperation> = Vec::new();
        if !self.vertices.contains_key(&v.id) {
            self.vertices.insert(v.id, v);
            ops.push(GraphOperation::AddVertex(v));
        }
        Diff { operations: ops }
    }
}

} // verus!
