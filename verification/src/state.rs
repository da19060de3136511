//! The state the user interface draws from.

use vstd::prelude::*;
use crate::models::ClipboardEntry;
use crate::settings::Settings;

verus! {

/// The settings and the history entries currently shown.
pub struct AppState {
    pub settings: Settings,
    pub clipboard_items: Vec<ClipboardEntry>,
}

impl AppState {
    /// A state showing `initial_items`.
    pub fn new(settings: Settings, initial_items: Vec<ClipboardEntry>) -> (r: AppState)
        ensures
            r.settings == settings,
            r.clipboard_items@ == initial_items@,
    {
        AppState { settings, clipboard_items: initial_items }
    }

    /// Replaces the entries shown.
    pub fn set_items(&mut self, items: Vec<ClipboardEntry>)
        ensures
            final(self).clipboard_items@ == items@,
            final(self).settings == old(self).settings,
    {
        self.clipboard_items = items;
    }

    /// The entries shown.
    pub fn get_items(&self) -> (r: &[ClipboardEntry])
        ensures
            r@ == self.clipboard_items@,
    {
        self.clipboard_items.as_slice()
    }
}

} // verus!
