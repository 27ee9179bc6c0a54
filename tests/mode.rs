use modal_graph::editor::keys::{ENTER, ESC, E_LOWER, I_LOWER, U_LOWER, U_UPPER, V_LOWER};
use modal_graph::editor::mode::{unknown_command_message, EditorMode, ModalOperation, TransitionResult};
use modal_graph::editor::state::Input;

#[test]
fn transition_to_insert_mode() {
    let mode = EditorMode::Command;
    let actual = mode.transition(Input::Key(I_LOWER));
    let expected = TransitionResult::ModeChange(EditorMode::Insert);
    assert_eq!(expected, actual);
}

#[test]
fn transition_to_command_mode() {
    let mode = EditorMode::Insert;
    let actual = mode.transition(Input::Key(ESC));
    let expected = TransitionResult::ModeChange(EditorMode::Command);
    assert_eq!(expected, actual);
}

#[test]
fn emit_operation_new_vertex() {
    let mode = EditorMode::Insert;
    let actual = mode.transition(Input::Key(V_LOWER));
    let expected = TransitionResult::Apply(ModalOperation::CreateNewVertex, EditorMode::Insert);
    assert_eq!(expected, actual);
}

#[test]
fn transition_command_err() {
    let mode = EditorMode::Command;
    let actual = mode.transition(Input::Key('f'));
    let expected = TransitionResult::Error(
        "Input Key('f') doesn't do anything in the current mode: Command".to_string(),
        EditorMode::Command,
    );
    assert_eq!(expected, actual);
}

#[test]
fn undo_and_redo_keys_in_command_mode() {
    assert_eq!(
        TransitionResult::Apply(ModalOperation::Undo, EditorMode::Command),
        EditorMode::Command.transition(Input::Key(U_LOWER))
    );
    assert_eq!(
        TransitionResult::Apply(ModalOperation::Redo, EditorMode::Command),
        EditorMode::Command.transition(Input::Key(U_UPPER))
    );
}

#[test]
fn unknown_key_in_insert_mode() {
    let actual = EditorMode::Insert.transition(Input::Key('x'));
    let expected = TransitionResult::Error(
        "Input Key('x') doesn't do anything in the current mode: Insert".to_string(),
        EditorMode::Insert,
    );
    assert_eq!(expected, actual);
}

#[test]
fn edge_text_accumulates_and_is_emitted_on_enter() {
    let started = EditorMode::Insert.transition(Input::Key(E_LOWER));
    assert_eq!(TransitionResult::ModeChange(EditorMode::InsertEdgePending(String::new())), started);
    let mode = EditorMode::InsertEdgePending("0".to_string());
    let next = mode.transition(Input::Key(','));
    assert_eq!(TransitionResult::ModeChange(EditorMode::InsertEdgePending("0,".to_string())), next);
    let done = EditorMode::InsertEdgePending("0,1".to_string()).transition(Input::Key(ENTER));
    assert_eq!(
        TransitionResult::Apply(ModalOperation::CreateNewEdge("0,1".to_string()), EditorMode::Insert),
        done
    );
}

#[test]
fn escape_discards_pending_edge_text() {
    let mode = EditorMode::InsertEdgePending("3,".to_string());
    assert_eq!(TransitionResult::ModeChange(EditorMode::Insert), mode.transition(Input::Key(ESC)));
}

#[test]
fn unknown_command_message_quotes_the_key() {
    assert_eq!(
        "Input Key('\\n') doesn't do anything in the current mode: Command",
        unknown_command_message(&EditorMode::Command, "'\\n'")
    );
    let actual = EditorMode::Command.transition(Input::Key(ENTER));
    assert_eq!(
        TransitionResult::Error(
            "Input Key('\\n') doesn't do anything in the current mode: Command".to_string(),
            EditorMode::Command
        ),
        actual
    );
}
