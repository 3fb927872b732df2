//! The console's transcript: the entries it showed, in order.

use vstd::prelude::*;

verus! {

/// Who or what an entry of the transcript comes from.
#[derive(Debug, Clone, PartialEq, Eq)]
pub enum TranscriptKind {
    User,
    Chat,
    R,
    Codex,
    System,
}

/// One entry of the transcript: a label such as `[R]`, its kind, and what
/// it says.
#[derive(Debug, Clone, PartialEq, Eq)]
pub struct TranscriptEntry {
    pub label: String,
    pub kind: TranscriptKind,
    pub content: String,
}

/// The entries of one console session, oldest first.
#[derive(Debug)]
pub struct Transcript {
    entries: Vec<TranscriptEntry>,
}

impl View for Transcript {
    type V = Seq<TranscriptEntry>;

    closed spec fn view(&self) -> Seq<TranscriptEntry> {
        self.entries@
    }
}

impl Default for Transcript {
    fn default() -> (t: Self)
        ensures
            t@ == Seq::<TranscriptEntry>::empty(),
    {
        Transcript { entries: Vec::new() }
    }
}

impl Transcript {
    /// Adds an entry after all the others.
    pub fn push(&mut self, entry: TranscriptEntry)
        ensures
            final(self)@ == old(self)@.push(entry),
    {
        self.entries.push(entry);
    }

    /// The entries, oldest first.
    pub fn entries(&self) -> (r: &[TranscriptEntry])
        ensures
            r@ == self@,
    {
        self.entries.as_slice()
    }
}

/// How the console prints an entry: the label, then a space and the content
/// unless the content is empty.
pub open spec fn entry_line(label: Seq<char>, content: Seq<char>) -> Seq<char> {
    if content.len() == 0 {
        label
    } else {
        label + seq![' '] + content
    }
}

impl TranscriptEntry {
    /// An entry with the given label, kind and content.
    pub fn new(label: &str, kind: TranscriptKind, content: &str) -> (e: Self)
        ensures
            e.label@ == label@,
            e.kind == kind,
            e.content@ == content@,
    {
        TranscriptEntry { label: label.to_owned(), kind, content: content.to_owned() }
    }

    /// The line that shows this entry.
    pub fn line(&self) -> (r: String)
        ensures
            r@ == entry_line(self.label@, self.content@),
    {
        let mut r = self.label.clone();
        if self.content.as_str().unicode_len() > 0 {
            crate::text::push_char(&mut r, ' ');
            r.append(self.content.as_str());
        }
        r
    }
}


/// An entry as its label, kind and content.
pub open spec fn entry_view(e: TranscriptEntry) -> (Seq<char>, TranscriptKind, Seq<char>) {
    (e.label@, e.kind, e.content@)
}

/// A list of entries as labels, kinds and contents.
pub open spec fn entries_view(v: Seq<TranscriptEntry>) -> Seq<(Seq<char>, TranscriptKind, Seq<char>)> {
    v.map_values(|e: TranscriptEntry| entry_view(e))
}

}
