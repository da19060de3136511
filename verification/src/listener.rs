//! Deciding which clipboard readings are new.

use vstd::prelude::*;
use crate::text::str_eq;

verus! {

/// What the clipboard listener remembers between readings: the last text it
/// had saved.
pub struct ListenerState {
    pub last_content: String,
}

impl ListenerState {
    /// The state before anything was saved.
    pub fn new() -> (r: ListenerState)
        ensures
            r.last_content@ == Seq::<char>::empty(),
    {
        ListenerState { last_content: String::new() }
    }

    /// Whether a clipboard reading should be handed to the service: it is not
    /// empty and differs from the text saved last.
    pub fn should_handle(&self, new_content: &str) -> (r: bool)
        ensures
            r == (new_content@.len() > 0 && new_content@ != self.last_content@),
    {
        !new_content.is_empty() && !str_eq(new_content, self.last_content.as_str())
    }

    /// Remembers that `content` was saved.
    pub fn record_saved(&mut self, content: String)
        ensures
            final(self).last_content@ == content@,
    {
        self.last_content = content;
    }
}

/// A reading that was just saved is not handled again while the clipboard
/// keeps it.
pub proof fn lemma_saved_reading_not_repeated(state: ListenerState, content: Seq<char>)
    requires
        state.last_content@ == content,
    ensures
        !(content.len() > 0 && content != state.last_content@),
{
}

} // verus!
