//! The pane state machines behind the terminal front end.
//!
//! Rendering (colors, canvases, key bindings) lives outside the library;
//! each pane's scroll and selection logic, and what it asks the remote
//! session for, is here.

pub mod code;
pub mod data;
pub mod debugbox;
pub mod registers;
pub mod status_bar;

use vstd::prelude::*;

verus! {

/// What a pane knows of the session around it.
#[derive(Copy, Clone, PartialEq, Eq, Structural, Debug)]
pub struct PaneStatus {
    /// A CPU session is live.
    pub attached: bool,
    /// This pane owns the keyboard.
    pub focused: bool,
    /// The CPU state changed and the pane should reload what it shows.
    pub reload: bool,
}

} // verus!
