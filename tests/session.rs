use std::collections::HashMap;

use modal_graph::editor::keys::{COMMA, DIGIT_0, DIGIT_1, ENTER, ESC, E_LOWER, I_LOWER, U_LOWER, U_UPPER, V_LOWER};
use modal_graph::editor::mode::EditorMode;
use modal_graph::editor::state::{malformed_edge_message, parse_edge_spec, EditorState, Input};
use modal_graph::graph::{Edge, Graph, Vertex};

fn single_edge_graph() -> Graph {
    let mut single_edge = Graph::new();
    let v0 = Vertex { id: 0 };
    let v1 = Vertex { id: 1 };
    let e0 = Edge { id: 0, source: v0.id, target: v1.id };
    single_edge.add_vertex(v0);
    single_edge.add_vertex(v1);
    single_edge.add_edge(e0);
    single_edge.clone()
}

fn press(state: &mut EditorState, keys: &[char]) -> Vec<String> {
    let mut messages = Vec::new();
    for k in keys {
        if let Some(m) = state.evaluate(Input::Key(*k)) {
            messages.push(m);
        }
    }
    messages
}

#[test]
fn insert_two_vertices_and_edge() {
    let mut state = EditorState::new();
    state.evaluate(Input::Key(I_LOWER));
    state.evaluate(Input::Key(V_LOWER));
    state.evaluate(Input::Key(V_LOWER));
    state.evaluate(Input::Key(E_LOWER));
    state.evaluate(Input::Key(DIGIT_0));
    state.evaluate(Input::Key(COMMA));
    state.evaluate(Input::Key(DIGIT_1));
    state.evaluate(Input::Key(ENTER));

    assert_eq!(&EditorMode::Insert, state.mode());

    let expected = single_edge_graph();
    assert_eq!(&expected, state.document());
}

#[test]
fn undo_redo() {
    let mut state = EditorState::new();
    state.evaluate(Input::Key(I_LOWER));
    state.evaluate(Input::Key(V_LOWER));
    state.evaluate(Input::Key(V_LOWER));
    state.evaluate(Input::Key(E_LOWER));
    state.evaluate(Input::Key(DIGIT_0));
    state.evaluate(Input::Key(COMMA));
    state.evaluate(Input::Key(DIGIT_1));
    state.evaluate(Input::Key(ENTER));
    state.evaluate(Input::Key(ESC));

    let single_edge = single_edge_graph();
    assert_eq!(&EditorMode::Command, state.mode());
    assert_eq!(&single_edge, state.document());

    let mut undid = single_edge_graph();
    undid.remove_edge(*undid.edges.values().next().unwrap());
    state.evaluate(Input::Key(U_LOWER));

    assert_eq!(&EditorMode::Command, state.mode());
    assert_eq!(&undid, state.document());

    state.evaluate(Input::Key(U_UPPER));

    assert_eq!(&EditorMode::Command, state.mode());
    assert_eq!(&single_edge, state.document());
}

#[test]
fn two_vertices_then_an_edge() {
    let mut state = EditorState::new();
    assert!(press(&mut state, &['i', 'v', 'v']).is_empty());
    assert_eq!(HashMap::from([(0, Vertex { id: 0 }), (1, Vertex { id: 1 })]), state.document().vertices);
    assert!(state.document().edges.is_empty());
    assert!(press(&mut state, &['e', '0', ',', '1', ENTER]).is_empty());
    assert_eq!(&EditorMode::Insert, state.mode());
    assert_eq!(HashMap::from([(0, Edge { id: 0, source: 0, target: 1 })]), state.document().edges);
    assert_eq!(2, state.document().vertices.len());
}

#[test]
fn undo_then_redo_of_the_edge() {
    let mut state = EditorState::new();
    press(&mut state, &['i', 'v', 'v', 'e', '0', ',', '1', ENTER, ESC]);
    press(&mut state, &['u']);
    assert!(state.document().edges.is_empty());
    assert_eq!(2, state.document().vertices.len());
    press(&mut state, &['U']);
    assert_eq!(HashMap::from([(0, Edge { id: 0, source: 0, target: 1 })]), state.document().edges);
}

#[test]
fn malformed_edge_spec_is_reported_and_changes_nothing() {
    let mut state = EditorState::new();
    press(&mut state, &['i', 'v', 'v']);
    let before = state.document().clone();
    let messages = press(&mut state, &['e', 'x', ENTER]);
    assert_eq!(vec!["Unable to parse 'x' as a list of two vertex ids.".to_string()], messages);
    assert_eq!(&EditorMode::Insert, state.mode());
    assert_eq!(&before, state.document());
    // The edge id was not consumed: the next edge still gets id 0.
    press(&mut state, &['e', '1', ',', '0', ENTER]);
    assert_eq!(HashMap::from([(0, Edge { id: 0, source: 1, target: 0 })]), state.document().edges);
}

#[test]
fn edge_to_a_missing_vertex_is_malformed() {
    let mut state = EditorState::new();
    press(&mut state, &['i', 'v']);
    let messages = press(&mut state, &['e', '0', ',', '5', ENTER]);
    assert_eq!(vec![malformed_edge_message("0,5")], messages);
    assert!(state.document().edges.is_empty());
}

#[test]
fn undo_with_no_history_and_redo_at_the_tip_do_nothing() {
    let mut state = EditorState::new();
    assert!(press(&mut state, &['u', 'U']).is_empty());
    assert_eq!(&Graph::new(), state.document());
    press(&mut state, &['i', 'v', ESC, 'U']);
    assert_eq!(1, state.document().vertices.len());
}

#[test]
fn undo_back_to_the_pristine_document() {
    let mut state = EditorState::new();
    press(&mut state, &['i', 'v', 'v', ESC, 'u', 'u']);
    assert_eq!(&Graph::new(), state.document());
    // With the cursor back at the pristine state, redo has nothing to follow.
    press(&mut state, &['U']);
    assert_eq!(&Graph::new(), state.document());
}

#[test]
fn a_new_edit_after_undo_starts_a_branch_that_redo_follows() {
    let mut state = EditorState::new();
    press(&mut state, &['i', 'v', 'v', ESC, 'u']);
    press(&mut state, &['i', 'v', ESC]);
    // Ids are never reused: the new vertex is 2.
    assert_eq!(HashMap::from([(0, Vertex { id: 0 }), (2, Vertex { id: 2 })]), state.document().vertices);
    press(&mut state, &['u']);
    assert_eq!(HashMap::from([(0, Vertex { id: 0 })]), state.document().vertices);
    press(&mut state, &['U']);
    assert_eq!(HashMap::from([(0, Vertex { id: 0 }), (2, Vertex { id: 2 })]), state.document().vertices);
}

#[test]
fn unknown_keys_are_reported_without_change() {
    let mut state = EditorState::new();
    let messages = press(&mut state, &['q']);
    assert_eq!(vec!["Input Key('q') doesn't do anything in the current mode: Command".to_string()], messages);
    assert_eq!(&EditorMode::Command, state.mode());
    assert_eq!(&Graph::new(), state.document());
}

#[test]
fn escape_in_pending_edge_consumes_nothing() {
    let mut state = EditorState::new();
    press(&mut state, &['i', 'v', 'v', 'e', '0', ',', ESC]);
    assert_eq!(&EditorMode::Insert, state.mode());
    press(&mut state, &['e', '0', ',', '1', ENTER]);
    assert_eq!(HashMap::from([(0, Edge { id: 0, source: 0, target: 1 })]), state.document().edges);
}

#[test]
fn edge_spec_splits_at_the_last_comma() {
    let mut g = Graph::new();
    g.add_vertex(Vertex { id: 0 });
    g.add_vertex(Vertex { id: 1 });
    assert_eq!(Some((0, 1)), parse_edge_spec(&g, " 0 , 1 "));
    assert_eq!(None, parse_edge_spec(&g, "7,0,1"));
    assert_eq!(None, parse_edge_spec(&g, "01"));
    assert_eq!(Some((1, 1)), parse_edge_spec(&g, "1,1"));
}
