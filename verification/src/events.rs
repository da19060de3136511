//! Messages passed between the user interface and the background service.

use vstd::prelude::*;
use crate::models::ClipboardEntry;

verus! {

/// What the service tells the user interface.
#[derive(Debug, Clone)]
pub enum AppEvent {
    /// The history to show now, newest first and pinned entries on top.
    HistoryUpdated(Vec<ClipboardEntry>),
}

/// What the user asked for.
#[derive(Debug, Clone)]
pub enum UiAction {
    /// Set the pinned flag of the entry with this id.
    TogglePin(i64, bool),
    /// Delete the entry with this id.
    Delete(i64),
    /// Show the entries that match this text.
    Search(String),
}

} // verus!
