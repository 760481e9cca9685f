//! State of the interactive game interface.
//!
//! The interface's update loop is not here: it reads its input through the
//! terminal-UI crates and plays moves through the engine's `chess` crate,
//! which is not available.
use vstd::prelude::*;

verus! {

/// Whether the input line takes commands or text.
#[derive(Debug, PartialEq, Eq, Structural, Clone, Copy)]
pub enum InputMode {
    Normal,
    Insert,
}

} // verus!
