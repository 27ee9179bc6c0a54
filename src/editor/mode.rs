//! The mode machine: a pure function from the current mode and one key to a
//! mode change, an intent to carry out, or an error to report.

use crate::editor::keys::{E_LOWER, ENTER, ESC, I_LOWER, U_LOWER, U_UPPER, V_LOWER};
use crate::editor::state::Input;
use vstd::prelude::*;
use vstd::string::StringExecFns;

verus! {

#[derive(Debug, Eq, PartialEq, Clone)]
pub enum EditorMode {
    /// The default mode, with no pending operation.
    Command,
    /// Keys create vertices and edges.
    Insert,
    /// An edge is being described; the text typed so far is kept.
    InsertEdgePending(String),
}

/// An abstract user action, emitted by the mode machine and carried out by
/// the session.
#[derive(Debug, Eq, PartialEq, Clone)]
pub enum ModalOperation {
    CreateNewVertex,
    CreateNewEdge(String),
    Undo,
    Redo,
}

#[derive(Debug, Eq, PartialEq, Clone)]
pub enum TransitionResult {
    /// An intent to carry out, and the mode to enter.
    Apply(ModalOperation, EditorMode),
    /// A mode change with nothing else to do.
    ModeChange(EditorMode),
    /// A message to report, and the mode to enter.
    Error(String, EditorMode),
}

pub enum ModeView {
    Command,
    Insert,
    InsertEdgePending(Seq<char>),
}

pub enum OperationView {
    CreateNewVertex,
    CreateNewEdge(Seq<char>),
    Undo,
    Redo,
}

pub enum OutcomeView {
    Apply(OperationView, ModeView),
    ModeChange(ModeView),
    Error(Seq<char>, ModeView),
}

impl View for EditorMode {
    type V = ModeView;

    open spec fn view(&self) -> ModeView {
        match self {
            EditorMode::Command => ModeView::Command,
            EditorMode::Insert => ModeView::Insert,
            EditorMode::InsertEdgePending(s) => ModeView::InsertEdgePending(s@),
        }
    }
}

impl View for ModalOperation {
    type V = OperationView;

    open spec fn view(&self) -> OperationView {
        match self {
            ModalOperation::CreateNewVertex => OperationView::CreateNewVertex,
            ModalOperation::CreateNewEdge(s) => OperationView::CreateNewEdge(s@),
            ModalOperation::Undo => OperationView::Undo,
            ModalOperation::Redo => OperationView::Redo,
        }
    }
}

impl View for TransitionResult {
    type V = OutcomeView;

    open spec fn view(&self) -> OutcomeView {
        match self {
            TransitionResult::Apply(op, m) => OutcomeView::Apply(op@, m@),
            TransitionResult::ModeChange(m) => OutcomeView::ModeChange(m@),
            TransitionResult::Error(msg, m) => OutcomeView::Error(msg@, m@),
        }
    }
}

/// How a mode is named in messages: by its variant alone, without the
/// pending edge text. Keys never fail in the pending mode, so the
/// mode machine's own messages name only `Command` and `Insert`.
pub open spec fn mode_label(m: ModeView) -> Seq<char> {
    match m {
        ModeView::Command => "Command"@,
        ModeView::Insert => "Insert"@,
        ModeView::InsertEdgePending(_) => "InsertEdgePending"@,
    }
}

/// The message for a key that means nothing in mode `m`, given the key as
/// written in a message.
pub open spec fn unknown_message_for(m: ModeView, key_text: Seq<char>) -> Seq<char> {
    "Input Key("@ + key_text + ") doesn't do anything in the current mode: "@ + mode_label(m)
}

/// What `{:?}` writes for a character: the character quoted and escaped.
pub uninterp spec fn char_debug(c: char) -> Seq<char>;

/// The message for key `key` that means nothing in mode `m`.
pub open spec fn unknown_message(m: ModeView, key: char) -> Seq<char> {
    unknown_message_for(m, char_debug(key))
}

/// The outcome of pressing `key` in mode `m`.
pub open spec fn next_outcome(m: ModeView, key: char) -> OutcomeView {
    match m {
        ModeView::Command => if key == I_LOWER {
            OutcomeView::ModeChange(ModeView::Insert)
        } else if key == U_LOWER {
            OutcomeView::Apply(OperationView::Undo, ModeView::Command)
        } else if key == U_UPPER {
            OutcomeView::Apply(OperationView::Redo, ModeView::Command)
        } else {
            OutcomeView::Error(unknown_message(m, key), ModeView::Command)
        },
        ModeView::Insert => if key == ESC {
            OutcomeView::ModeChange(ModeView::Command)
        } else if key == V_LOWER {
            OutcomeView::Apply(OperationView::CreateNewVertex, ModeView::Insert)
        } else if key == E_LOWER {
            OutcomeView::ModeChange(ModeView::InsertEdgePending(Seq::empty()))
        } else {
            OutcomeView::Error(unknown_message(m, key), ModeView::Insert)
        },
        ModeView::InsertEdgePending(s) => if key == ESC {
            OutcomeView::ModeChange(ModeView::Insert)
        } else if key == ENTER {
            OutcomeView::Apply(OperationView::CreateNewEdge(s), ModeView::Insert)
        } else {
            OutcomeView::ModeChange(ModeView::InsertEdgePending(s.push(key)))
        },
    }
}

/// Relies on `String::push`: appends one character.
#[verifier::external_body]
pub(crate) fn push_char(s: &mut String, c: char)
    ensures
        final(s)@ == old(s)@.push(c),
{
    s.push(c)
}

/// Relies on the `Debug` formatting of `char`.
#[verifier::external_body]
fn debug_char(c: char) -> (r: String)
    ensures
        r@ == char_debug(c),
{
    format!("{:?}", c)
}

/// The message for a key that means nothing in `mode`, given the key as it
/// is written in a message.
pub fn unknown_command_message(mode: &EditorMode, key_text: &str) -> (r: String)
    ensures
        r@ == unknown_message_for(mode@, key_text@),
{
    let mut r = "Input Key(".to_owned();
    r.append(key_text);
    r.append(") doesn't do anything in the current mode: ");
    match mode {
        EditorMode::Command => r.append("Command"),
        EditorMode::Insert => r.append("Insert"),
        EditorMode::InsertEdgePending(_) => r.append("InsertEdgePending"),
    }
    r
}

impl EditorMode {
    /// The outcome of one key in this mode.
    pub fn transition(self, input: Input) -> (r: TransitionResult)
        ensures
            r@ == next_outcome(self@, input.key()),
    {
        let key = input.char_of();
        match self {
            EditorMode::Command => if key == I_LOWER {
                TransitionResult::ModeChange(EditorMode::Insert)
            } else if key == U_LOWER {
                TransitionResult::Apply(ModalOperation::Undo, EditorMode::Command)
            } else if key == U_UPPER {
                TransitionResult::Apply(ModalOperation::Redo, EditorMode::Command)
            } else {
                self.unknown_command(input)
            },
            EditorMode::Insert => if key == ESC {
                TransitionResult::ModeChange(EditorMode::Command)
            } else if key == V_LOWER {
                TransitionResult::Apply(ModalOperation::CreateNewVertex, EditorMode::Insert)
            } else if key == E_LOWER {
                TransitionResult::ModeChange(EditorMode::InsertEdgePending(String::new()))
            } else {
                self.unknown_command(input)
            },
            EditorMode::InsertEdgePending(s) => if key == ESC {
                TransitionResult::ModeChange(EditorMode::Insert)
            } else if key == ENTER {
                TransitionResult::Apply(ModalOperation::CreateNewEdge(s), EditorMode::Insert)
            } else {
                let mut s = s;
                push_char(&mut s, key);
                TransitionResult::ModeChange(EditorMode::InsertEdgePending(s))
            },
        }
    }

    fn unknown_command(self, input: Input) -> (r: TransitionResult)
        ensures
            r@ == OutcomeView::Error(unknown_message(self@, input.key()), self@),
    {
        let text = debug_char(input.char_of());
        let msg = unknown_command_message(&self, text.as_str());
        TransitionResult::Error(msg, self)
    }
}

} // verus!
