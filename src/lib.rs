//! Editing core of a modal, keystroke-driven graph editor: a graph document
//! whose edits report their effective diff, a mode machine that turns keys
//! into intents, and an editing session with a branching undo history.

pub mod graph;
pub mod editor;
