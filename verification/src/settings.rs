//! User settings of the application.

use vstd::prelude::*;
use crate::decimal::{decimal, push_decimal};

verus! {

/// Window size, history length and clipboard polling period.
#[derive(Debug, Clone, Copy, PartialEq, Eq, Structural)]
pub struct Settings {
    pub window_width: u32,
    pub window_height: u32,
    pub max_history_items: usize,
    pub poll_interval: u64,
}

impl Default for Settings {
    fn default() -> (r: Settings)
        ensures
            r == (Settings {
                window_width: 1000,
                window_height: 700,
                max_history_items: 10,
                poll_interval: 1000,
            }),
    {
        Settings { window_width: 1000, window_height: 700, max_history_items: 10, poll_interval: 1000 }
    }
}

/// The multi-line text that describes `s`.
pub open spec fn settings_text(s: Settings) -> Seq<char> {
    "Settings {\n    window_width: "@ + decimal(s.window_width as nat) + ",\n    window_height: "@
        + decimal(s.window_height as nat) + ",\n    max_history_items: "@ + decimal(
        s.max_history_items as nat,
    ) + ",\n    poll_interval: "@ + decimal(s.poll_interval as nat) + "\n}"@
}

impl Settings {
    /// The settings written out, one field per line.
    pub fn display_text(&self) -> (r: String)
        ensures
            r@ == settings_text(*self),
    {
        let mut out = String::from_str("Settings {\n    window_width: ");
        push_decimal(&mut out, self.window_width as u64);
        out.append(",\n    window_height: ");
        push_decimal(&mut out, self.window_height as u64);
        out.append(",\n    max_history_items: ");
        push_decimal(&mut out, self.max_history_items as u64);
        out.append(",\n    poll_interval: ");
        push_decimal(&mut out, self.poll_interval);
        out.append("\n}");
        out
    }
}

} // verus!
