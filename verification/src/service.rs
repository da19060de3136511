//! Decisions of the clipboard service: what to record when the clipboard
//! changes, and which history to show for a search.

use vstd::prelude::*;
use crate::models::{ClipboardContentType, ClipboardEntry};
use crate::text::{
    is_ws, lemma_normalized_empty_iff_blank, lemma_normalized_idempotent,
    lemma_normalized_single_spaced, lemma_words_of_normalized, normalize, normalized, single_spaced,
    trim, trimmed, words,
};

verus! {

/// How many entries the service loads whenever it refreshes the history.
pub const HISTORY_REFRESH_LIMIT: usize = 100;

/// The text to record for clipboard text `raw`: its normalised form, unless
/// that is empty.
pub open spec fn recorded_text(raw: Seq<char>) -> Option<Seq<char>> {
    if normalized(raw).len() == 0 {
        None
    } else {
        Some(normalized(raw))
    }
}

/// Normalises new clipboard text; `None` when nothing is left to record.
pub fn prepare_clipboard_text(raw: String) -> (r: Option<String>)
    ensures
        match recorded_text(raw@) {
            Some(t) => r is Some && r->0@ == t,
            None => r is None,
        },
        r is Some <==> exists|i: int| 0 <= i < raw@.len() && !is_ws(#[trigger] raw@[i]),
{
    proof {
        lemma_normalized_empty_iff_blank(raw@);
    }
    let content = normalize(raw);
    if content.as_str().is_empty() {
        None
    } else {
        Some(content)
    }
}

/// Clipboard text is recorded exactly when it holds a character that is not
/// white space, however short it is; what is recorded has the same words as
/// the text, separated by single spaces.
pub proof fn lemma_recorded_iff_visible(raw: Seq<char>)
    ensures
        recorded_text(raw) is Some <==> exists|i: int| 0 <= i < raw.len() && !is_ws(#[trigger] raw[i]),
        recorded_text(raw) matches Some(t) ==> words(t) == words(raw) && single_spaced(t)
            && t.len() > 0,
{
    lemma_normalized_empty_iff_blank(raw);
    lemma_normalized_single_spaced(raw);
    lemma_words_of_normalized(raw);
}

/// Whether `content` repeats the newest entry of `latest`.
pub open spec fn repeats_latest(content: Seq<char>, latest: Seq<ClipboardEntry>) -> bool {
    latest.len() > 0 && latest[0].content@ == content
}

/// The entry to insert for `content`, given the newest stored entries
/// `latest` and the time `created_at` (Unix seconds); `None` when `content`
/// repeats the newest entry.
pub fn entry_to_insert(content: String, latest: &[ClipboardEntry], created_at: i64) -> (r: Option<
    ClipboardEntry,
>)
    ensures
        repeats_latest(content@, latest@) ==> r is None,
        r is None <==> (latest@.len() > 0 && latest@[0].content@ == content@),
        !repeats_latest(content@, latest@) ==> r is Some && r->0.id == 0 && r->0.content@
            == content@ && r->0.content_type == ClipboardContentType::Text && r->0.created_at
            == created_at && !r->0.pinned,
{
    if latest.len() > 0 && latest[0].content == content {
        None
    } else {
        Some(
            ClipboardEntry {
                id: 0,
                content,
                content_type: ClipboardContentType::Text,
                created_at,
                pinned: false,
            },
        )
    }
}

/// Once the text recorded for a clipboard reading `raw` is the newest entry,
/// neither the same reading nor the recorded text itself is recorded again:
/// the recorded text is already in normal form.
pub proof fn lemma_recorded_text_not_repeated(raw: Seq<char>, latest: Seq<ClipboardEntry>)
    requires
        recorded_text(raw) is Some,
        latest.len() > 0,
        latest[0].content@ == recorded_text(raw)->0,
    ensures
        repeats_latest(recorded_text(raw)->0, latest),
        recorded_text(latest[0].content@) == Some(latest[0].content@),
        repeats_latest(recorded_text(latest[0].content@)->0, latest),
{
    lemma_normalized_idempotent(raw);
}

/// Only an exact repeat of the newest entry's text is skipped: its text is,
/// while any other text (a prefix or an extension of it among them) is
/// recorded, and with no history nothing is skipped.
pub proof fn lemma_only_exact_repeat_skipped(content: Seq<char>, latest: Seq<ClipboardEntry>)
    ensures
        latest.len() > 0 ==> repeats_latest(latest[0].content@, latest),
        latest.len() > 0 && content != latest[0].content@ ==> !repeats_latest(content, latest),
        latest.len() == 0 ==> !repeats_latest(content, latest),
        latest.len() > 0 && content.len() < latest[0].content@.len() ==> !repeats_latest(content, latest),
{
}

/// Which part of the history to show.
#[derive(Debug, Clone, PartialEq, Eq)]
pub enum HistoryQuery {
    /// The newest entries, pinned ones first.
    Latest { limit: usize, offset: usize },
    /// The entries whose text matches `query`.
    Search { query: String, limit: usize, offset: usize },
}

/// The history to show for the search text `query`: the newest entries when
/// it is blank, else the matches of `query`.
pub fn history_query_for(query: String) -> (r: HistoryQuery)
    ensures
        trimmed(query@).len() == 0 ==> r == (HistoryQuery::Latest {
            limit: HISTORY_REFRESH_LIMIT,
            offset: 0,
        }),
        trimmed(query@).len() != 0 ==> (r matches HistoryQuery::Search { query: q, limit, offset }
            && q@ == query@ && limit == HISTORY_REFRESH_LIMIT && offset == 0),
{
    let t = trim(query.as_str());
    if t.as_str().is_empty() {
        HistoryQuery::Latest { limit: HISTORY_REFRESH_LIMIT, offset: 0 }
    } else {
        HistoryQuery::Search { query, limit: HISTORY_REFRESH_LIMIT, offset: 0 }
    }
}

/// The full-text query for search text `query`: the trimmed text followed by
/// `*`, so that it matches words that start with it.
pub fn fts_query(query: &str) -> (r: String)
    ensures
        r@ == trimmed(query@).push('*'),
{
    let mut t = trim(query);
    t.push('*');
    t
}

} // verus!
