//! The interactive side of the editor: the keys it reads, the mode machine
//! that interprets them, and the session that applies the result.

pub mod keys;
pub mod mode;
pub mod state;
