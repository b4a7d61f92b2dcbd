//! The stored record.

use vstd::prelude::*;

verus! {

/// One stored record. An empty `note` means that the entry has no note.
#[derive(Debug, PartialEq, Eq)]
pub struct Entry {
    pub key: String,
    pub value: String,
    pub note: String,
}

/// An [`Entry`] as plain text.
pub struct EntryView {
    pub key: Seq<char>,
    pub value: Seq<char>,
    pub note: Seq<char>,
}

impl View for Entry {
    type V = EntryView;

    open spec fn view(&self) -> EntryView {
        EntryView { key: self.key@, value: self.value@, note: self.note@ }
    }
}

impl DeepView for Entry {
    type V = EntryView;

    open spec fn deep_view(&self) -> EntryView {
        self@
    }
}

impl Clone for Entry {
    fn clone(&self) -> (copy: Self)
        ensures
            copy@ == self@,
    {
        Entry { key: self.key.clone(), value: self.value.clone(), note: self.note.clone() }
    }
}

/// The line that shows an entry: `key: value`, followed by `  # note` when the
/// entry has a note.
pub open spec fn entry_line(e: EntryView) -> Seq<char> {
    if e.note.len() == 0 {
        e.key + ": "@ + e.value
    } else {
        e.key + ": "@ + e.value + "  # "@ + e.note
    }
}

impl Entry {
    /// A new entry without a note.
    pub fn new(key: &str, value: &str) -> (entry: Entry)
        ensures
            entry@ == (EntryView { key: key@, value: value@, note: Seq::empty() }),
    {
        Entry { key: key.to_owned(), value: value.to_owned(), note: String::new() }
    }

    /// An entry with all three fields given.
    pub fn with_note(key: &str, value: &str, note: &str) -> (entry: Entry)
        ensures
            entry@ == (EntryView { key: key@, value: value@, note: note@ }),
    {
        Entry { key: key.to_owned(), value: value.to_owned(), note: note.to_owned() }
    }

    /// Whether the entry carries a note.
    pub fn has_note(&self) -> (noted: bool)
        ensures
            noted == (self@.note.len() > 0),
    {
        !self.note.as_str().is_empty()
    }

    /// The entry as one line of plain text.
    pub fn line(&self) -> (text: String)
        ensures
            text@ == entry_line(self@),
    {
        let mut text = self.key.clone();
        text.append(": ");
        text.append(self.value.as_str());
        if self.has_note() {
            text.append("  # ");
            text.append(self.note.as_str());
        }
        text
    }
}

} // verus!
