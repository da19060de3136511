//! How a history entry is presented in the list.

use vstd::prelude::*;
use vstd::utf8::{decode_utf8, encode_utf8, is_char_boundary};
use crate::clock::unix_now;
use crate::models::{ClipboardContentType, ClipboardEntry};
use crate::text::{contains, occurs_at, starts_with};
use crate::time_ago::{format_time_ago_at, time_ago_label};

verus! {

/// The kind of item shown in the list.
#[derive(Debug, Clone, Copy, PartialEq, Eq, Structural)]
pub enum ItemType {
    Text,
    Link,
    Image,
    File,
}

/// A history entry prepared for display.
#[derive(Clone, Debug)]
pub struct ClipboardItemView {
    pub id: i64,
    pub content_preview: String,
    pub timestamp: String,
    pub item_type: ItemType,
    pub full_content: String,
    pub pinned: bool,
}

/// The number of bytes of content shown before the preview is cut.
pub const PREVIEW_BYTES: usize = 120;

/// The UTF-8 bytes of `s`.
pub open spec fn utf8_len(s: Seq<char>) -> nat {
    encode_utf8(s).len()
}

/// Whether the preview of `content` can be cut where it must be: either the
/// content is short enough to be shown whole, or its first `PREVIEW_BYTES`
/// bytes end on a character boundary.
pub open spec fn preview_cuttable(content: Seq<char>) -> bool {
    utf8_len(content) > PREVIEW_BYTES ==> is_char_boundary(encode_utf8(content), PREVIEW_BYTES as int)
}

/// The preview of `content`: the whole text when it is at most
/// `PREVIEW_BYTES` bytes long, else its first `PREVIEW_BYTES` bytes followed
/// by "...".
pub open spec fn preview_of(content: Seq<char>) -> Seq<char> {
    if utf8_len(content) > PREVIEW_BYTES {
        decode_utf8(encode_utf8(content).subrange(0, PREVIEW_BYTES as int)) + "..."@
    } else {
        content
    }
}

/// The item type shown for content of the given kind.
pub open spec fn item_type_of(content: Seq<char>, content_type: ClipboardContentType) -> ItemType {
    match content_type {
        ClipboardContentType::Image => ItemType::Image,
        ClipboardContentType::File => ItemType::File,
        ClipboardContentType::Text => {
            if occurs_at(content, "http://"@, 0) || occurs_at(content, "https://"@, 0) {
                ItemType::Link
            } else if exists|at: int| occurs_at(content, "data:image"@, at) {
                ItemType::Image
            } else {
                ItemType::Text
            }
        },
    }
}

/// `content` begins with `prefix`.
pub open spec fn begins_with(content: Seq<char>, prefix: Seq<char>) -> bool {
    prefix.len() <= content.len() && content.take(prefix.len() as int) == prefix
}

/// `pat` stands somewhere inside `content`.
pub open spec fn has_substring(content: Seq<char>, pat: Seq<char>) -> bool {
    exists|at: int| 0 <= at && at + pat.len() <= content.len() && #[trigger] content.subrange(at, at + pat.len()) == pat
}

/// How the kind of an entry is decided: image and file entries keep their
/// kind; text is a link exactly when it begins with `http://` or `https://`,
/// otherwise an image exactly when `data:image` occurs in it, and plain text
/// in every other case.
pub proof fn lemma_item_type_rules(content: Seq<char>, content_type: ClipboardContentType)
    ensures
        content_type == ClipboardContentType::Image ==> item_type_of(content, content_type) == ItemType::Image,
        content_type == ClipboardContentType::File ==> item_type_of(content, content_type) == ItemType::File,
        content_type == ClipboardContentType::Text ==> {
            let link = begins_with(content, "http://"@) || begins_with(content, "https://"@);
            &&& (item_type_of(content, content_type) == ItemType::Link) == link
            &&& (item_type_of(content, content_type) == ItemType::Image) == (!link && has_substring(
                content,
                "data:image"@,
            ))
            &&& (item_type_of(content, content_type) == ItemType::Text) == (!link && !has_substring(
                content,
                "data:image"@,
            ))
        },
{
    assert(occurs_at(content, "http://"@, 0) == begins_with(content, "http://"@)) by {
        assert(content.len() >= "http://"@.len() ==> content.subrange(0, "http://"@.len() as int)
            =~= content.take("http://"@.len() as int));
    }
    assert(occurs_at(content, "https://"@, 0) == begins_with(content, "https://"@)) by {
        assert(content.len() >= "https://"@.len() ==> content.subrange(0, "https://"@.len() as int)
            =~= content.take("https://"@.len() as int));
    }
    assert((exists|at: int| occurs_at(content, "data:image"@, at)) == has_substring(
        content,
        "data:image"@,
    )) by {
        if exists|at: int| occurs_at(content, "data:image"@, at) {
            let at = choose|at: int| occurs_at(content, "data:image"@, at);
            assert(content.subrange(at, at + "data:image"@.len()) == "data:image"@);
        }
        if has_substring(content, "data:image"@) {
            let at = choose|at: int|
                0 <= at && at + "data:image"@.len() <= content.len() && #[trigger] content.subrange(
                    at,
                    at + "data:image"@.len(),
                ) == "data:image"@;
            assert(occurs_at(content, "data:image"@, at));
        }
    }
}

/// The item type shown for `entry`.
pub fn item_type_for(entry: &ClipboardEntry) -> (r: ItemType)
    ensures
        r == item_type_of(entry.content@, entry.content_type),
{
    match entry.content_type {
        ClipboardContentType::Image => ItemType::Image,
        ClipboardContentType::File => ItemType::File,
        ClipboardContentType::Text => {
            let content = entry.content.as_str();
            if starts_with(content, "http://") || starts_with(content, "https://") {
                ItemType::Link
            } else if contains(content, "data:image") {
                ItemType::Image
            } else {
                ItemType::Text
            }
        },
    }
}

/// The preview text of `content`.
pub fn preview(content: &str) -> (r: String)
    requires
        utf8_len(content@) <= usize::MAX,
        preview_cuttable(content@),
    ensures
        r@ == preview_of(content@),
{
    if content.len() > PREVIEW_BYTES {
        let (head, _tail) = content.split_at(PREVIEW_BYTES);
        proof {
            vstd::utf8::encode_utf8_decode_utf8(head@);
        }
        let mut out = String::from_str(head);
        out.append("...");
        out
    } else {
        String::from_str(content)
    }
}

impl ClipboardItemView {
    /// The view of `entry` at time `now` (Unix seconds).
    pub fn from_at(entry: &ClipboardEntry, now: i64) -> (r: ClipboardItemView)
        requires
            utf8_len(entry.content@) <= usize::MAX,
            preview_cuttable(entry.content@),
        ensures
            r.id == entry.id,
            r.content_preview@ == preview_of(entry.content@),
            r.timestamp@ == time_ago_label(now, entry.created_at),
            r.item_type == item_type_of(entry.content@, entry.content_type),
            r.full_content@ == entry.content@,
            r.pinned == entry.pinned,
    {
        ClipboardItemView {
            id: entry.id,
            content_preview: preview(entry.content.as_str()),
            timestamp: format_time_ago_at(now, entry.created_at),
            item_type: item_type_for(entry),
            full_content: entry.content.clone(),
            pinned: entry.pinned,
        }
    }

    /// The view of `entry` now, by the system clock.
    pub fn from(entry: &ClipboardEntry) -> (r: ClipboardItemView)
        requires
            utf8_len(entry.content@) <= usize::MAX,
            preview_cuttable(entry.content@),
        ensures
            exists|now: i64|
                #![trigger time_ago_label(now, entry.created_at)]
                r.timestamp@ == time_ago_label(now, entry.created_at),
            r.id == entry.id,
            r.content_preview@ == preview_of(entry.content@),
            r.item_type == item_type_of(entry.content@, entry.content_type),
            r.full_content@ == entry.content@,
            r.pinned == entry.pinned,
    {
        let now = unix_now();
        Self::from_at(entry, now)
    }
}

} // verus!
