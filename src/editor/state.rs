//! The editing session: mode, document, undo history and id counters, driven
//! one key at a time.

use crate::editor::mode::{
    next_outcome, EditorMode, ModalOperation, ModeView, OperationView, OutcomeView,
    TransitionResult,
};
use crate::graph::{
    applicable, edges_without, empty_graph, inverse, inverses, is_addition, lemma_run_well_formed,
    lemma_step_well_formed, resolved,
    run, run_diff, runs_applicable, step, step_diff, well_formed, Diff, Edge, Graph,
    GraphOperation, GraphView, Vertex,
};
use indextree::{Arena, NodeId};
use vstd::prelude::*;
use vstd::string::StringExecFns;

verus! {

#[verifier::external_type_specification]
#[verifier::external_body]
#[verifier::reject_recursive_types(T)]
pub struct ExArena<T>(Arena<T>);

#[verifier::external_type_specification]
#[verifier::external_body]
pub struct ExNodeId(NodeId);

/// The live nodes of a history arena: for each node, the operations of its
/// diff, its parent and its last child.
pub uninterp spec fn history_of(a: Arena<Diff>) -> Map<
    NodeId,
    (Seq<GraphOperation>, Option<NodeId>, Option<NodeId>),
>;

/// Relies on `Arena::new`: an arena with no nodes.
#[verifier::external_body]
fn empty_history() -> (arena: Arena<Diff>)
    ensures
        history_of(arena).dom() == Set::<NodeId>::empty(),
{
    Arena::new()
}

/// Relies on `Arena::new_node`: a new live node, with no parent and no
/// children, under an id that no live node had.
#[verifier::external_body]
fn add_node(a: &mut Arena<Diff>, d: Diff) -> (n: NodeId)
    requires
        history_of(*old(a)).dom().finite(),
        history_of(*old(a)).dom().len() < usize::MAX,
    ensures
        !history_of(*old(a)).contains_key(n),
        history_of(*final(a)) == history_of(*old(a)).insert(n, (d.operations@, None, None)),
{
    a.new_node(d)
}

/// Relies on `NodeId::append`: a parentless, childless node becomes the last
/// child of another live node.
#[verifier::external_body]
fn append_child(a: &mut Arena<Diff>, parent: NodeId, child: NodeId)
    requires
        history_of(*old(a)).contains_key(parent),
        history_of(*old(a)).contains_key(child),
        parent != child,
        history_of(*old(a))[child].1 is None,
        history_of(*old(a))[child].2 is None,
    ensures
        history_of(*final(a)) == history_of(*old(a)).insert(
            child,
            (history_of(*old(a))[child].0, Some(parent), None),
        ).insert(parent, (history_of(*old(a))[parent].0, history_of(*old(a))[parent].1, Some(child))),
{
    parent.append(child, a)
}

/// Relies on indexing an `Arena` and `Node::get`: the diff stored at a live
/// node.
#[verifier::external_body]
fn node_diff(a: &Arena<Diff>, n: NodeId) -> (r: &Diff)
    requires
        history_of(*a).contains_key(n),
    ensures
        r.operations@ == history_of(*a)[n].0,
{
    a[n].get()
}

/// Relies on indexing an `Arena` and `Node::parent`.
#[verifier::external_body]
fn node_parent(a: &Arena<Diff>, n: NodeId) -> (r: Option<NodeId>)
    requires
        history_of(*a).contains_key(n),
    ensures
        r == history_of(*a)[n].1,
{
    a[n].parent()
}

/// Relies on indexing an `Arena` and `Node::last_child`.
#[verifier::external_body]
fn node_last_child(a: &Arena<Diff>, n: NodeId) -> (r: Option<NodeId>)
    requires
        history_of(*a).contains_key(n),
    ensures
        r == history_of(*a)[n].2,
{
    a[n].last_child()
}


/// The text before and after the last comma of `s`, if it has one.
pub open spec fn split_last_comma(s: Seq<char>) -> Option<(Seq<char>, Seq<char>)> {
    if exists|i: int| 0 <= i < s.len() && s[i] == ',' {
        let p = choose|p: int|
            0 <= p < s.len() && s[p] == ',' && forall|j: int| p < j < s.len() ==> s[j] != ',';
        Some((s.take(p), s.skip(p + 1)))
    } else {
        None
    }
}

/// The two vertices that an edge specification names: the text is split at
/// its last comma, and each side must name a vertex of the document.
pub open spec fn edge_endpoints(g: GraphView, raw: Seq<char>) -> Option<(i64, i64)> {
    match split_last_comma(raw) {
        Some((a, b)) => match (resolved(g, a), resolved(g, b)) {
            (Some(x), Some(y)) => Some((x, y)),
            _ => None,
        },
        None => None,
    }
}

/// The message that reports an edge specification that names no two vertices.
pub open spec fn malformed_message(raw: Seq<char>) -> Seq<char> {
    "Unable to parse '"@ + raw + "' as a list of two vertex ids."@
}

/// Relies on `str::rsplit_once` with a `char` pattern: the text around the
/// last occurrence of the character.
#[verifier::external_body]
fn split_at_last_comma<'a>(s: &'a str) -> (r: Option<(&'a str, &'a str)>)
    ensures
        match r {
            Some((a, b)) => split_last_comma(s@) == Some((a@, b@)),
            None => split_last_comma(s@) is None,
        },
{
    s.rsplit_once(',')
}

/// The message that reports an edge specification that names no two vertices.
pub fn malformed_edge_message(raw: &str) -> (r: String)
    ensures
        r@ == malformed_message(raw@),
{
    let mut r = "Unable to parse '".to_owned();
    r.append(raw);
    r.append("' as a list of two vertex ids.");
    r
}

/// The two vertices that an edge specification names, if it names two
/// vertices of `g`.
pub fn parse_edge_spec(g: &Graph, raw: &str) -> (r: Option<(i64, i64)>)
    ensures
        r == edge_endpoints(g@, raw@),
{
    match split_at_last_comma(raw) {
        Some((a, b)) => match (g.resolve_vertex(a), g.resolve_vertex(b)) {
            (Some(x), Some(y)) => Some((x, y)),
            _ => None,
        },
        None => None,
    }
}

fn inverted(ops: &Vec<GraphOperation>) -> (r: Vec<GraphOperation>)
    ensures
        r@ == inverses(ops@),
{
    let mut r: Vec<GraphOperation> = Vec::new();
    let mut i: usize = 0;
    while i < ops.len()
        invariant
            i <= ops.len(),
            r@ == inverses(ops@.take(i as int)),
        decreases ops.len() - i,
    {
        r.push(ops[i].invert());
        proof {
            assert(ops@.take(i + 1) == ops@.take(i as int).push(ops@[i as int]));
            assert(inverses(ops@.take(i + 1)) =~= inverses(ops@.take(i as int)).push(inverse(ops@[i as int])));
        }
        i = i + 1;
    }
    proof {
        assert(ops@.take(ops@.len() as int) == ops@);
    }
    r
}

fn copied(ops: &Vec<GraphOperation>) -> (r: Vec<GraphOperation>)
    ensures
        r@ == ops@,
{
    let mut r: Vec<GraphOperation> = Vec::new();
    let mut i: usize = 0;
    while i < ops.len()
        invariant
            i <= ops.len(),
            r@ == ops@.take(i as int),
        decreases ops.len() - i,
    {
        r.push(ops[i]);
        proof {
            assert(ops@.take(i + 1) == ops@.take(i as int).push(ops@[i as int]));
        }
        i = i + 1;
    }
    proof {
        assert(ops@.take(ops@.len() as int) == ops@);
    }
    r
}

/// What an intent resolves to: operations to apply as one batch, whether
/// they form a new edit of the history, and where the cursor moves.
pub struct OpInterpretation {
    pub document_changes: Diff,
    pub new_history_node: bool,
    pub moves_cursor: bool,
    pub set_last_edit: Option<NodeId>,
}

impl Default for OpInterpretation {
    fn default() -> (r: Self)
        ensures
            r.document_changes.operations@.len() == 0,
            !r.new_history_node,
            !r.moves_cursor,
            r.set_last_edit is None,
    {
        OpInterpretation {
            document_changes: Diff { operations: Vec::new() },
            new_history_node: false,
            moves_cursor: false,
            set_last_edit: None,
        }
    }
}

impl OpInterpretation {
    /// A fresh edit made of `ops`, to be recorded in the history.
    pub fn standard_op(ops: Vec<GraphOperation>) -> (r: Self)
        ensures
            r.document_changes.operations@ == ops@,
            r.new_history_node,
            !r.moves_cursor,
            r.set_last_edit is None,
    {
        OpInterpretation {
            document_changes: Diff { operations: ops },
            new_history_node: true,
            moves_cursor: false,
            set_last_edit: None,
        }
    }
}

/// Every vertex id of `g` is below `vid` and every edge id below `eid`: ids
/// handed out by the counters are never reused.
pub open spec fn ids_below(g: GraphView, vid: i64, eid: i64) -> bool {
    &&& forall|k: i64| #[trigger] g.vertices.contains_key(k) ==> k < vid
    &&& forall|k: i64| #[trigger] g.edges.contains_key(k) ==> k < eid
}

/// `s1` is `s0` after a standard edit that applied `op`: a new node, child
/// of the old cursor, holds the effective diff, and the cursor moves to it.
pub open spec fn edited(s0: EditorState, s1: EditorState, op: GraphOperation) -> bool {
    let n = s1.cursor()->Some_0;
    &&& s1.cursor() is Some
    &&& !s0.history().contains_key(n)
    &&& s1.doc() == step(s0.doc(), op)
    &&& s1.history().contains_key(n)
    &&& s1.history()[n].0 == step_diff(s0.doc(), op)
    &&& s1.history()[n].1 == s0.cursor()
    &&& s1.history().dom() == s0.history().dom().insert(n)
    &&& (s0.cursor() matches Some(c) ==> {
        &&& s1.history()[c].0 == s0.history()[c].0
        &&& s1.history()[c].1 == s0.history()[c].1
        &&& s1.history()[c].2 == Some(n)
    })
    &&& forall|m: NodeId|
        #![trigger s0.history()[m]]
        s0.history().contains_key(m) && Some(m) != s0.cursor() ==> s1.history()[m]
            == s0.history()[m]
    &&& s1.history()[n].2 is None
    &&& s1.snapshots() == s0.snapshots().insert(n, s1.doc())
    &&& s1.state_at(s0.cursor()) == s0.doc()
}

/// `s1` is `s0` after an undo: the document goes back to the state before
/// the edit at the cursor, and the cursor to that edit's parent; with no
/// edit to undo, nothing changes.
pub open spec fn undone(s0: EditorState, s1: EditorState) -> bool {
    &&& s1.history() == s0.history()
    &&& s1.snapshots() == s0.snapshots()
    &&& match s0.cursor() {
        Some(c) => s1.doc() == s0.state_before(c) && s1.cursor() == s0.history()[c].1,
        None => s1.doc() == s0.doc() && s1.cursor() == s0.cursor(),
    }
}

/// `s1` is `s0` after a redo: the most recent child of the cursor's node is
/// realized again and the cursor moves to it; with no cursor or no child,
/// nothing changes.
pub open spec fn redone(s0: EditorState, s1: EditorState) -> bool {
    &&& s1.history() == s0.history()
    &&& s1.snapshots() == s0.snapshots()
    &&& if s0.cursor() is Some && s0.history()[s0.cursor()->Some_0].2 is Some {
        let k = s0.history()[s0.cursor()->Some_0].2->Some_0;
        s1.doc() == s0.state_at(Some(k)) && s1.cursor() == Some(k)
    } else {
        s1.doc() == s0.doc() && s1.cursor() == s0.cursor()
    }
}

/// Document, history, cursor and id counters are as they were.
pub open spec fn unchanged(s0: EditorState, s1: EditorState) -> bool {
    &&& s1.doc() == s0.doc()
    &&& s1.history() == s0.history()
    &&& s1.snapshots() == s0.snapshots()
    &&& s1.cursor() == s0.cursor()
    &&& s1.next_ids() == s0.next_ids()
}


/// The message that reports that no id or history node is left for a new
/// edit.
pub open spec fn exhausted_message() -> Seq<char> {
    "No ids are left for a new edit."@
}

/// The effect of carrying out intent `op` on `s0`, giving `s1` and the
/// message `msg` to report, if any.
pub open spec fn applied(
    s0: EditorState,
    s1: EditorState,
    op: OperationView,
    msg: Option<Seq<char>>,
) -> bool {
    let (vid, eid) = s0.next_ids();
    let room = s0.history().dom().len() < usize::MAX;
    match op {
        OperationView::CreateNewVertex => if room && vid < i64::MAX {
            &&& edited(s0, s1, GraphOperation::AddVertex(Vertex { id: vid }))
            &&& s1.history()[s1.cursor()->Some_0].0 == seq![
                GraphOperation::AddVertex(Vertex { id: vid }),
            ]
            &&& s1.next_ids() == ((vid + 1) as i64, eid)
            &&& msg is None
        } else {
            unchanged(s0, s1) && msg == Some(exhausted_message())
        },
        OperationView::CreateNewEdge(raw) => match edge_endpoints(s0.doc(), raw) {
            Some((x, y)) => if room && eid < i64::MAX {
                &&& edited(s0, s1, GraphOperation::AddEdge(Edge { id: eid, source: x, target: y }))
                &&& s1.history()[s1.cursor()->Some_0].0 == seq![
                    GraphOperation::AddEdge(Edge { id: eid, source: x, target: y }),
                ]
                &&& s1.next_ids() == (vid, (eid + 1) as i64)
                &&& msg is None
            } else {
                unchanged(s0, s1) && msg == Some(exhausted_message())
            },
            None => unchanged(s0, s1) && msg == Some(malformed_message(raw)),
        },
        OperationView::Undo => undone(s0, s1) && s1.next_ids() == s0.next_ids() && msg is None,
        OperationView::Redo => redone(s0, s1) && s1.next_ids() == s0.next_ids() && msg is None,
    }
}

/// The effect of one key on `s0`, giving `s1` and the message to report.
pub open spec fn evaluated(
    s0: EditorState,
    s1: EditorState,
    key: char,
    msg: Option<Seq<char>>,
) -> bool {
    match next_outcome(s0.mode_view(), key) {
        OutcomeView::ModeChange(m) => s1.mode_view() == m && unchanged(s0, s1) && msg is None,
        OutcomeView::Error(text, m) => s1.mode_view() == m && unchanged(s0, s1) && msg == Some(
            text,
        ),
        OutcomeView::Apply(op, m) => s1.mode_view() == m && applied(s0, s1, op, msg),
    }
}

pub open spec fn message_view(r: Option<String>) -> Option<Seq<char>> {
    match r {
        Some(t) => Some(t@),
        None => None,
    }
}

/// A single addition applied to a well-formed graph records a diff that
/// replays to the same graph and whose inverses, in recording order, give
/// back the graph before it.
proof fn lemma_single_edit(g: GraphView, op: GraphOperation)
    requires
        well_formed(g),
        is_addition(op),
        applicable(g, op),
    ensures
        runs_applicable(g, seq![op]),
        run(g, seq![op]) == step(g, op),
        run_diff(g, seq![op]) == step_diff(g, op),
        runs_applicable(g, step_diff(g, op)),
        run(g, step_diff(g, op)) == step(g, op),
        runs_applicable(step(g, op), inverses(step_diff(g, op))),
        run(step(g, op), inverses(step_diff(g, op))) == g,
{
    let d = step_diff(g, op);
    let h = step(g, op);
    assert(seq![op].drop_last() == Seq::<GraphOperation>::empty());
    assert(seq![op].take(0) == Seq::<GraphOperation>::empty());
    assert(seq![op].last() == op);
    assert(run(g, Seq::<GraphOperation>::empty()) == g);
    assert(run(g, seq![op]) == step(g, op));
    assert(run_diff(g, Seq::<GraphOperation>::empty()) == Seq::<GraphOperation>::empty());
    assert(run_diff(g, seq![op]) =~= step_diff(g, op));
    if d.len() == 0 {
        assert(h == g);
        assert(inverses(d) =~= Seq::<GraphOperation>::empty());
        assert(run(h, Seq::<GraphOperation>::empty()) == h);
    } else {
        assert(d == seq![op]);
        assert(d.take(0) == Seq::<GraphOperation>::empty());
        let inv = inverses(d);
        assert(inv =~= seq![inverse(op)]);
        assert(inv.drop_last() == Seq::<GraphOperation>::empty());
        assert(inv.take(0) == Seq::<GraphOperation>::empty());
        assert(inv.last() == inverse(op));
        assert(run(h, Seq::<GraphOperation>::empty()) == h);
        assert(run(h, inv) == step(h, inverse(op)));
        match op {
            GraphOperation::AddVertex(v) => {
                assert(edges_without(h.edges, v.id) =~= g.edges);
                assert(h.vertices.remove(v.id) =~= g.vertices);
                assert(step(h, inverse(op)) == g);
            },
            GraphOperation::AddEdge(e) => {
                assert(h.edges.remove(e.id) =~= g.edges);
                assert(step(h, inverse(op)) == g);
            },
            _ => {},
        }
    }
}

/// Undo right after a standard edit brings back the document as it was
/// before the edit; when the edit was made below an earlier one, redo right
/// after that undo brings back the document as it was after the edit.
pub proof fn lemma_undo_redo_after_edit(
    s0: EditorState,
    s1: EditorState,
    s2: EditorState,
    s3: EditorState,
    op: GraphOperation,
)
    requires
        s0.wf(),
        s1.wf(),
        edited(s0, s1, op),
        undone(s1, s2),
        redone(s2, s3),
    ensures
        s2.doc() == s0.doc(),
        s0.cursor() is Some ==> s3.doc() == s1.doc(),
{
    let n = s1.cursor()->Some_0;
    assert(s1.history().contains_key(n));
    if s0.cursor() is Some {
        assert(s2.cursor() == s0.cursor());
        assert(s3.doc() == s2.state_at(Some(n)));
    }
}

pub struct EditorState {
    mode: EditorMode,
    /// The document as it stands at the current position in the history.
    document: Graph,
    /// The undo tree of the session; the children of a node are appended in
    /// time order.
    history_tree: Arena<Diff>,
    /// The node of the last realized edit; `None` before any edit.
    last_edit: Option<NodeId>,
    next_vertex_id: i64,
    next_edge_id: i64,
    /// How many nodes the history holds.
    node_count: usize,
    /// The document as it stood right after the edit of each node.
    states: Ghost<Map<NodeId, GraphView>>,
}

impl Default for EditorState {
    fn default() -> (s: Self)
        ensures
            s.wf(),
            s.mode_view() == ModeView::Command,
            s.doc() == empty_graph(),
            s.cursor() is None,
    {
        EditorState::new()
    }
}

impl EditorState {
    pub closed spec fn history(self) -> Map<NodeId, (Seq<GraphOperation>, Option<NodeId>, Option<NodeId>)> {
        history_of(self.history_tree)
    }

    pub closed spec fn cursor(self) -> Option<NodeId> {
        self.last_edit
    }

    pub closed spec fn doc(self) -> GraphView {
        self.document@
    }

    pub closed spec fn snapshots(self) -> Map<NodeId, GraphView> {
        self.states@
    }

    pub closed spec fn mode_view(self) -> ModeView {
        self.mode@
    }

    pub closed spec fn next_ids(self) -> (i64, i64) {
        (self.next_vertex_id, self.next_edge_id)
    }

    /// The document at a position of the history; `None` is the pristine,
    /// empty document.
    pub open spec fn state_at(self, n: Option<NodeId>) -> GraphView {
        match n {
            Some(k) => self.snapshots()[k],
            None => empty_graph(),
        }
    }

    /// The document just before the edit of node `n`.
    pub open spec fn state_before(self, n: NodeId) -> GraphView {
        self.state_at(self.history()[n].1)
    }

    /// The session is consistent: replaying a node's diff from the state
    /// before it gives the state after it, applying the diff's inverses in
    /// recording order gives back the state before, and the document is the
    /// state at the cursor.
    pub closed spec fn wf(self) -> bool {
        let h = self.history();
        &&& h.dom().finite()
        &&& h.dom().len() == self.node_count
        &&& self.states@.dom() == h.dom()
        &&& forall|n: NodeId| #[trigger]
            h.contains_key(n) ==> {
                &&& (h[n].1 matches Some(p) ==> h.contains_key(p))
                &&& (h[n].2 matches Some(c) ==> h.contains_key(c) && h[c].1 == Some(n))
                &&& well_formed(self.states@[n])
                &&& runs_applicable(self.state_before(n), h[n].0)
                &&& run(self.state_before(n), h[n].0) == self.states@[n]
                &&& runs_applicable(self.states@[n], inverses(h[n].0))
                &&& run(self.states@[n], inverses(h[n].0)) == self.state_before(n)
            }
        &&& (self.last_edit matches Some(c) ==> h.contains_key(c))
        &&& self.document@ == self.state_at(self.last_edit)
        &&& well_formed(self.document@)
        &&& ids_below(self.document@, self.next_vertex_id, self.next_edge_id)
        &&& forall|n: NodeId| #[trigger]
            self.states@.contains_key(n) ==> ids_below(
                self.states@[n],
                self.next_vertex_id,
                self.next_edge_id,
            )
    }

    pub fn new() -> (s: EditorState)
        ensures
            s.wf(),
            s.mode_view() == ModeView::Command,
            s.doc() == empty_graph(),
            s.cursor() is None,
            s.history().dom().is_empty(),
            s.next_ids() == (0i64, 0i64),
    {
        let s = EditorState {
            mode: EditorMode::Command,
            document: Graph::new(),
            history_tree: empty_history(),
            last_edit: None,
            next_vertex_id: 0,
            next_edge_id: 0,
            node_count: 0,
            states: Ghost(Map::empty()),
        };
        s
    }

    /// The interpretation can be carried out on this session: a standard
    /// edit is one applicable addition with room in the history; a cursor
    /// move applies operations that lead to the state at its target.
    pub closed spec fn realizable(self, it: OpInterpretation) -> bool {
        let ops = it.document_changes.operations@;
        if it.new_history_node {
            &&& !it.moves_cursor
            &&& ops.len() == 1
            &&& is_addition(ops[0])
            &&& applicable(self.doc(), ops[0])
            &&& self.node_count < usize::MAX
            &&& ids_below(step(self.doc(), ops[0]), self.next_vertex_id, self.next_edge_id)
        } else if it.moves_cursor {
            &&& runs_applicable(self.doc(), ops)
            &&& run(self.doc(), ops) == self.state_at(it.set_last_edit)
            &&& (it.set_last_edit matches Some(k) ==> self.history().contains_key(k))
        } else {
            ops.len() == 0
        }
    }

    /// Applies an interpretation to the document, then records a new history
    /// node or moves the cursor.
    fn realize(&mut self, it: OpInterpretation)
        requires
            old(self).wf(),
            old(self).realizable(it),
        ensures
            final(self).wf(),
            final(self).mode == old(self).mode,
            final(self).next_ids() == old(self).next_ids(),
            it.new_history_node ==> edited(
                *old(self),
                *final(self),
                it.document_changes.operations@[0],
            ),
            !it.new_history_node && it.moves_cursor ==> {
                &&& final(self).doc() == old(self).state_at(it.set_last_edit)
                &&& final(self).cursor() == it.set_last_edit
                &&& final(self).history() == old(self).history()
                &&& final(self).snapshots() == old(self).snapshots()
            },
            !it.new_history_node && !it.moves_cursor ==> unchanged(*old(self), *final(self)),
    {
        let ghost s0 = *self;
        let ghost ops = it.document_changes.operations@;
        if it.new_history_node {
            proof {
                lemma_single_edit(s0.doc(), ops[0]);
                assert(ops == seq![ops[0]]);
                lemma_step_well_formed(s0.doc(), ops[0]);
            }
            let diff = self.document.apply_all(it.document_changes.operations);
            let n = add_node(&mut self.history_tree, diff);
            if let Some(c) = self.last_edit {
                append_child(&mut self.history_tree, c, n);
            }
            self.node_count = self.node_count + 1;
            self.states = Ghost(self.states@.insert(n, self.document@));
            self.last_edit = Some(n);
            proof {
                let h0 = s0.history();
                let h = self.history();
                assert(h.dom() =~= h0.dom().insert(n));
                assert(self.state_at(s0.last_edit) == s0.doc());
                assert forall|m: NodeId| #[trigger] h.contains_key(m) implies {
                    &&& (h[m].1 matches Some(p) ==> h.contains_key(p))
                    &&& (h[m].2 matches Some(c) ==> h.contains_key(c) && h[c].1 == Some(m))
                    &&& well_formed(self.states@[m])
                    &&& runs_applicable(self.state_before(m), h[m].0)
                    &&& run(self.state_before(m), h[m].0) == self.states@[m]
                    &&& runs_applicable(self.states@[m], inverses(h[m].0))
                    &&& run(self.states@[m], inverses(h[m].0)) == self.state_before(m)
                } by {
                    if m != n {
                        assert(h0.contains_key(m));
                        assert(s0.state_before(m) == self.state_before(m));
                    }
                }
            }
        } else if it.moves_cursor {
            proof {
                lemma_run_well_formed(s0.doc(), ops);
            }
            let _ = self.document.apply_all(it.document_changes.operations);
            self.last_edit = it.set_last_edit;
        }
    }

    /// Resolves an intent against the session: the operations to apply, and
    /// whether they make a new edit or move the cursor. Only the id counters
    /// change here.
    fn interpret_modal_operation(&mut self, op: ModalOperation) -> (r: Result<
        OpInterpretation,
        String,
    >)
        requires
            old(self).wf(),
        ensures
            final(self).wf(),
            final(self).mode == old(self).mode,
            final(self).document == old(self).document,
            final(self).history_tree == old(self).history_tree,
            final(self).last_edit == old(self).last_edit,
            final(self).node_count == old(self).node_count,
            final(self).states == old(self).states,
            match r {
                Ok(it) => final(self).realizable(it),
                Err(_) => final(self).next_ids() == old(self).next_ids(),
            },
            ({
                let (vid, eid) = old(self).next_ids();
                let room = old(self).history().dom().len() < usize::MAX;
                match op@ {
                    OperationView::CreateNewVertex => if room && vid < i64::MAX {
                        r matches Ok(it) && it.new_history_node
                            && it.document_changes.operations@[0] == GraphOperation::AddVertex(
                            Vertex { id: vid },
                        ) && final(self).next_ids() == ((vid + 1) as i64, eid)
                    } else {
                        r matches Err(m) && m@ == exhausted_message()
                    },
                    OperationView::CreateNewEdge(raw) => match edge_endpoints(
                        old(self).doc(),
                        raw,
                    ) {
                        Some((x, y)) => if room && eid < i64::MAX {
                            r matches Ok(it) && it.new_history_node
                                && it.document_changes.operations@[0] == GraphOperation::AddEdge(
                                Edge { id: eid, source: x, target: y },
                            ) && final(self).next_ids() == (vid, (eid + 1) as i64)
                        } else {
                            r matches Err(m) && m@ == exhausted_message()
                        },
                        None => r matches Err(m) && m@ == malformed_message(raw),
                    },
                    OperationView::Undo => r matches Ok(it) && !it.new_history_node
                        && final(self).next_ids() == (vid, eid) && match old(self).cursor() {
                        Some(c) => it.moves_cursor && it.set_last_edit == old(
                            self,
                        ).history()[c].1 && it.document_changes.operations@ == inverses(
                            old(self).history()[c].0,
                        ),
                        None => !it.moves_cursor && it.document_changes.operations@.len() == 0,
                    },
                    OperationView::Redo => r matches Ok(it) && !it.new_history_node
                        && final(self).next_ids() == (vid, eid) && if old(self).cursor() is Some
                        && old(self).history()[old(self).cursor()->Some_0].2 is Some {
                        it.moves_cursor && it.set_last_edit == old(self).history()[old(
                            self,
                        ).cursor()->Some_0].2 && it.document_changes.operations@ == old(
                            self,
                        ).history()[old(self).history()[old(self).cursor()->Some_0].2->Some_0].0
                    } else {
                        !it.moves_cursor && it.document_changes.operations@.len() == 0
                    },
                }
            }),
    {
        let room = self.node_count < usize::MAX;
        match op {
            ModalOperation::CreateNewVertex => {
                if room && self.next_vertex_id < i64::MAX {
                    let v = Vertex { id: self.next_vertex_id };
                    self.next_vertex_id = self.next_vertex_id + 1;
                    Ok(OpInterpretation::standard_op(vec![GraphOperation::AddVertex(v)]))
                } else {
                    Err("No ids are left for a new edit.".to_owned())
                }
            },
            ModalOperation::CreateNewEdge(chosen_vertices) => {
                match parse_edge_spec(&self.document, chosen_vertices.as_str()) {
                    Some((source, target)) => {
                        if room && self.next_edge_id < i64::MAX {
                            let e = Edge { id: self.next_edge_id, source, target };
                            self.next_edge_id = self.next_edge_id + 1;
                            Ok(OpInterpretation::standard_op(vec![GraphOperation::AddEdge(e)]))
                        } else {
                            Err("No ids are left for a new edit.".to_owned())
                        }
                    },
                    None => Err(malformed_edge_message(chosen_vertices.as_str())),
                }
            },
            ModalOperation::Undo => match self.last_edit {
                None => Ok(OpInterpretation::default()),
                Some(last_edit_id) => {
                    let diff = node_diff(&self.history_tree, last_edit_id);
                    let ops = inverted(&diff.operations);
                    let parent = node_parent(&self.history_tree, last_edit_id);
                    Ok(
                        OpInterpretation {
                            document_changes: Diff { operations: ops },
                            new_history_node: false,
                            moves_cursor: true,
                            set_last_edit: parent,
                        },
                    )
                },
            },
            ModalOperation::Redo => match self.last_edit {
                None => Ok(OpInterpretation::default()),
                Some(last_edit_id) => match node_last_child(&self.history_tree, last_edit_id) {
                    None => Ok(OpInterpretation::default()),
                    Some(next_state_id) => {
                        let diff = node_diff(&self.history_tree, next_state_id);
                        let ops = copied(&diff.operations);
                        Ok(
                            OpInterpretation {
                                document_changes: Diff { operations: ops },
                                new_history_node: false,
                                moves_cursor: true,
                                set_last_edit: Some(next_state_id),
                            },
                        )
                    },
                },
            },
        }
    }

    /// Handles one key: the mode machine decides, and the session adopts the
    /// new mode and carries out the intent, if any. Returns the message to
    /// report to the user, if any.
    pub fn evaluate(&mut self, input: Input) -> (r: Option<String>)
        requires
            old(self).wf(),
        ensures
            final(self).wf(),
            evaluated(*old(self), *final(self), input.key(), message_view(r)),
    {
        let mut current = EditorMode::Command;
        std::mem::swap(&mut current, &mut self.mode);
        match current.transition(input) {
            TransitionResult::ModeChange(next_mode) => {
                self.mode = next_mode;
                None
            },
            TransitionResult::Error(msg, next_mode) => {
                self.mode = next_mode;
                Some(msg)
            },
            TransitionResult::Apply(op, next_mode) => {
                self.mode = next_mode;
                match self.interpret_modal_operation(op) {
                    Ok(interpreted_op) => {
                        self.realize(interpreted_op);
                        None
                    },
                    Err(msg) => Some(msg),
                }
            },
        }
    }

    pub fn mode(&self) -> (m: &EditorMode)
        ensures
            m@ == self.mode_view(),
    {
        &self.mode
    }

    pub fn document(&self) -> (g: &Graph)
        ensures
            g@ == self.doc(),
    {
        &self.document
    }
}

/// One key event.
#[derive(Debug, Eq, PartialEq, Clone, Copy)]
pub enum Input {
    Key(char),
}

impl Input {
    pub open spec fn key(self) -> char {
        match self {
            Input::Key(c) => c,
        }
    }

    /// The character of the key.
    pub fn char_of(self) -> (c: char)
        ensures
            c == self.key(),
    {
        match self {
            Input::Key(c) => c,
        }
    }
}

} // verus!
