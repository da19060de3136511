//! The records kept in the clipboard history.

use vstd::prelude::*;
use crate::text::str_eq;

verus! {

/// The kind of content a history entry holds.
#[derive(Debug, Clone, Copy, PartialEq, Eq, Structural)]
pub enum ClipboardContentType {
    Text,
    Image,
    File,
}

/// Why a stored value could not be read back as a content type.
#[derive(Debug, Clone, Copy, PartialEq, Eq, Structural)]
pub enum ContentTypeError {
    /// The stored value names no known content type.
    InvalidType,
}

/// One entry of the clipboard history.
#[derive(Clone, Debug)]
pub struct ClipboardEntry {
    pub id: i64,
    pub content: String,
    pub content_type: ClipboardContentType,
    pub created_at: i64,
    pub pinned: bool,
}

/// The name under which a content type is stored.
pub open spec fn content_type_name(t: ClipboardContentType) -> Seq<char> {
    match t {
        ClipboardContentType::Text => "text"@,
        ClipboardContentType::Image => "image"@,
        ClipboardContentType::File => "file"@,
    }
}

/// The content type stored under `name`, if any.
pub open spec fn content_type_named(name: Seq<char>) -> Option<ClipboardContentType> {
    if name == "text"@ {
        Some(ClipboardContentType::Text)
    } else if name == "image"@ {
        Some(ClipboardContentType::Image)
    } else if name == "file"@ {
        Some(ClipboardContentType::File)
    } else {
        None
    }
}

impl ClipboardContentType {
    /// The name under which this content type is stored.
    pub fn to_sql(&self) -> (r: &'static str)
        ensures
            r@ == content_type_name(*self),
    {
        match self {
            ClipboardContentType::Text => "text",
            ClipboardContentType::Image => "image",
            ClipboardContentType::File => "file",
        }
    }

    /// Reads a content type back from its stored name.
    pub fn column_result(value: &str) -> (r: Result<ClipboardContentType, ContentTypeError>)
        ensures
            match content_type_named(value@) {
                Some(t) => r == Ok::<ClipboardContentType, ContentTypeError>(t),
                None => r == Err::<ClipboardContentType, ContentTypeError>(
                    ContentTypeError::InvalidType,
                ),
            },
    {
        if str_eq(value, "text") {
            Ok(ClipboardContentType::Text)
        } else if str_eq(value, "image") {
            Ok(ClipboardContentType::Image)
        } else if str_eq(value, "file") {
            Ok(ClipboardContentType::File)
        } else {
            Err(ContentTypeError::InvalidType)
        }
    }
}

/// Reading back the stored name of a content type gives that content type.
pub proof fn lemma_content_type_round_trip(t: ClipboardContentType)
    ensures
        content_type_named(content_type_name(t)) == Some(t),
{
    reveal_strlit("text");
    reveal_strlit("image");
    reveal_strlit("file");
    assert("image"@.len() != "text"@.len());
    assert("file"@[0] != "text"@[0]);
    assert("file"@.len() != "image"@.len());
}

/// A name that reads back as a content type is that content type's stored name.
pub proof fn lemma_content_type_name_unique(name: Seq<char>)
    ensures
        content_type_named(name) matches Some(t) ==> content_type_name(t) == name,
{
}

} // verus!
