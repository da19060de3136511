//! Human-readable age of a history entry.

use vstd::prelude::*;
use crate::decimal::{decimal, push_decimal};
use crate::clock::unix_now;

verus! {

/// The label for an entry created `diff` seconds ago.
pub open spec fn time_ago_text(diff: int) -> Seq<char> {
    if diff < 60 {
        "Just now"@
    } else if diff < 3600 {
        decimal((diff / 60) as nat) + "m ago"@
    } else if diff < 86400 {
        decimal((diff / 3600) as nat) + "h ago"@
    } else {
        decimal((diff / 86400) as nat) + "d ago"@
    }
}

/// The label for an entry created at `created_at`, seen at `now` (both in
/// Unix seconds).
pub open spec fn time_ago_label(now: i64, created_at: i64) -> Seq<char> {
    time_ago_text(now - created_at)
}

/// The label for an entry created at `created_at` (Unix seconds), seen at
/// time `now`.
pub fn format_time_ago_at(now: i64, created_at: i64) -> (r: String)
    ensures
        r@ == time_ago_label(now, created_at),
{
    let diff: i128 = now as i128 - created_at as i128;
    if diff < 60 {
        String::from_str("Just now")
    } else {
        let mut out = String::new();
        if diff < 3600 {
            push_decimal(&mut out, (diff / 60) as u64);
            out.append("m ago");
        } else if diff < 86400 {
            push_decimal(&mut out, (diff / 3600) as u64);
            out.append("h ago");
        } else {
            push_decimal(&mut out, (diff / 86400) as u64);
            out.append("d ago");
        }
        out
    }
}

/// The label for an entry created at `created_at` (Unix seconds), seen now
/// by the system clock.
pub fn format_time_ago(created_at: i64) -> (r: String)
    ensures
        exists|now: i64| r@ == #[trigger] time_ago_label(now, created_at),
{
    let now = unix_now();
    format_time_ago_at(now, created_at)
}

} // verus!
