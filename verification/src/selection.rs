//! Keyboard selection in the history list, and the actions it leads to.

use vstd::prelude::*;
use crate::events::UiAction;
use crate::models::ClipboardEntry;

verus! {

/// Which row of the history list is selected, if any.
#[derive(Debug, Clone, Copy, PartialEq, Eq, Structural)]
pub struct Selection {
    pub selected_index: Option<usize>,
}

/// The selected row, counting no selection as the first row.
pub open spec fn current(s: Option<usize>) -> int {
    match s {
        Some(i) => i as int,
        None => 0,
    }
}

/// The row selected after moving down from `s` in a list of `len > 0` rows.
pub open spec fn next_index(s: Option<usize>, len: usize) -> int {
    if current(s) + 1 < len {
        current(s) + 1
    } else {
        len - 1
    }
}

/// The row selected after moving up from `s`.
pub open spec fn previous_index(s: Option<usize>) -> int {
    if current(s) > 0 {
        current(s) - 1
    } else {
        0
    }
}

/// Moving the selection keeps it on a row of the list: down in a non-empty
/// list lands on one of its rows, and up from a row of the list stays in it.
pub proof fn lemma_moves_stay_in_list(s: Option<usize>, len: usize)
    ensures
        len > 0 ==> 0 <= next_index(s, len) < len,
        0 <= previous_index(s),
        current(s) < len ==> previous_index(s) < len,
        current(s) < len ==> current(s) <= next_index(s, len) <= current(s) + 1,
{
}

impl Selection {
    /// The selection of a fresh list: the first row.
    pub fn new() -> (r: Selection)
        ensures
            r.selected_index == Some(0usize),
    {
        Selection { selected_index: Some(0) }
    }

    /// Selects the row that was clicked.
    pub fn select(&mut self, idx: usize)
        ensures
            final(self).selected_index == Some(idx),
    {
        self.selected_index = Some(idx);
    }

    /// Moves the selection one row down, stopping at the last of `len` rows;
    /// with no rows it stays as it is.
    pub fn select_next(&mut self, len: usize)
        ensures
            len == 0 ==> *final(self) == *old(self),
            len > 0 ==> final(self).selected_index == Some(
                next_index(old(self).selected_index, len) as usize,
            ),
    {
        if len == 0 {
            return;
        }
        let cur = match self.selected_index {
            Some(i) => i,
            None => 0,
        };
        let next = if cur < len - 1 {
            cur + 1
        } else {
            len - 1
        };
        self.selected_index = Some(next);
    }

    /// Moves the selection one row up, stopping at the first row.
    pub fn select_previous(&mut self)
        ensures
            final(self).selected_index == Some(previous_index(old(self).selected_index) as usize),
    {
        let cur = match self.selected_index {
            Some(i) => i,
            None => 0,
        };
        self.selected_index = Some(cur.saturating_sub(1));
    }

    /// The id of the selected entry, to be copied, if a row is selected and
    /// stands in `items`.
    pub fn copy_selected(&self, items: &[ClipboardEntry]) -> (r: Option<i64>)
        ensures
            r == (match self.selected_index {
                Some(i) => if i < items@.len() {
                    Some(items@[i as int].id)
                } else {
                    None
                },
                None => None,
            }),
    {
        match self.selected_index {
            Some(idx) => {
                if idx < items.len() {
                    Some(items[idx].id)
                } else {
                    None
                }
            },
            None => None,
        }
    }

    /// Asks to delete the selected entry, if a row is selected and stands in
    /// `items`; when it was the last row (and not the first), the selection
    /// moves up one row.
    pub fn delete_selected(&mut self, items: &[ClipboardEntry]) -> (r: Option<UiAction>)
        ensures
            match old(self).selected_index {
                Some(i) => if i < items@.len() {
                    &&& r == Some(UiAction::Delete(items@[i as int].id))
                    &&& final(self).selected_index == (if i + 1 >= items@.len() && i > 0 {
                        Some((i - 1) as usize)
                    } else {
                        Some(i)
                    })
                } else {
                    r.is_none() && *final(self) == *old(self)
                },
                None => r.is_none() && *final(self) == *old(self),
            },
    {
        match self.selected_index {
            Some(idx) => {
                if idx < items.len() {
                    let action = UiAction::Delete(items[idx].id);
                    if idx >= items.len().saturating_sub(1) && idx > 0 {
                        self.selected_index = Some(idx - 1);
                    }
                    Some(action)
                } else {
                    None
                }
            },
            None => None,
        }
    }

    /// Asks to flip the pinned flag of the selected entry, if a row is
    /// selected and stands in `items`.
    pub fn toggle_pin_selected(&self, items: &[ClipboardEntry]) -> (r: Option<UiAction>)
        ensures
            r == (match self.selected_index {
                Some(i) => if i < items@.len() {
                    Some(UiAction::TogglePin(items@[i as int].id, !items@[i as int].pinned))
                } else {
                    None
                },
                None => None,
            }),
    {
        match self.selected_index {
            Some(idx) => {
                if idx < items.len() {
                    Some(UiAction::TogglePin(items[idx].id, !items[idx].pinned))
                } else {
                    None
                }
            },
            None => None,
        }
    }
}

} // verus!
