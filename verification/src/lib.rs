//! Verified core of a minimal desktop text editor.
//!
//! The library holds the editor's state machine: a document path, a text
//! buffer with a cursor, the most recent error, and a highlighting theme.
//! Events drive the state; file dialogs, file I/O and rendering live in the
//! surrounding application, which performs the commands this core emits.

pub mod buffer;
pub mod display;
pub mod laws;
pub mod state;
pub mod text_ops;

use vstd::prelude::*;

verus! {

/// The hardcoded file the editor tries to load on startup.
pub fn default_file() -> (r: String)
    ensures
        r@ == "src/main.rs"@,
{
    String::from_str("src/main.rs")
}

} // verus!
