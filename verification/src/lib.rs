//! Core engine of a terminal browser for a markdown corpus: a fuzzy line
//! index re-ranked on every keystroke, a persisted semantic paragraph index
//! validated by modification-time fingerprints, and a mode-driven session
//! state machine that consumes streamed assistant output and links citations
//! back into source files.

use vstd::prelude::*;

pub mod chat;
pub mod layout;
pub mod rag;
pub mod search;
pub mod session;
pub mod citations;
pub mod text;
pub mod update;

verus! {

} // verus!
