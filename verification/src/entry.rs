//! What a recursive directory walk yields, as plain values.

use vstd::prelude::*;

verus! {

/// One file-system entry met during a walk.
#[derive(Debug, PartialEq, Eq)]
pub struct Entry {
    /// The path under which the walk reached the entry.
    pub path: String,
    /// The last component of `path`.
    pub file_name: String,
    /// Whether the entry is a directory.
    pub is_dir: bool,
    /// The byte length in the entry's metadata, `None` if it could not be read.
    pub len: Option<u64>,
}

/// The mathematical value of an [`Entry`].
pub struct EntryView {
    pub path: Seq<char>,
    pub file_name: Seq<char>,
    pub is_dir: bool,
    pub len: Option<u64>,
}

impl View for Entry {
    type V = EntryView;

    open spec fn view(&self) -> EntryView {
        EntryView {
            path: self.path@,
            file_name: self.file_name@,
            is_dir: self.is_dir,
            len: self.len,
        }
    }
}

impl DeepView for Entry {
    type V = EntryView;

    open spec fn deep_view(&self) -> EntryView {
        self@
    }
}

/// One step of a walk: an entry, or a place that could not be read.
#[derive(Debug, PartialEq, Eq)]
pub enum Visit {
    Entry(Entry),
    Unreadable,
}

/// The mathematical value of a [`Visit`].
pub enum VisitView {
    Entry(EntryView),
    Unreadable,
}

impl View for Visit {
    type V = VisitView;

    open spec fn view(&self) -> VisitView {
        match self {
            Visit::Entry(entry) => VisitView::Entry(entry@),
            Visit::Unreadable => VisitView::Unreadable,
        }
    }
}

impl DeepView for Visit {
    type V = VisitView;

    open spec fn deep_view(&self) -> VisitView {
        self@
    }
}

} // verus!
