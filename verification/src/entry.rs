//! The data yielded by a filesystem walk: entry kinds, entries, and walk
//! events (an entry, or a traversal error that did not stop the walk).

use vstd::prelude::*;

verus! {

/// The character sequences of a sequence of strings, in order.
pub open spec fn texts(v: Seq<String>) -> Seq<Seq<char>> {
    v.map_values(|s: String| s@)
}

/// The kind of a filesystem entry: a directory, a regular file, or a
/// symbolic link. Compared by equality only.
#[derive(Clone, Copy, Debug, PartialEq, Eq, Structural)]
pub enum EntryType {
    Dir,
    File,
    Link,
}

/// One filesystem node met during traversal.
///
/// `path` is the path as the walker produced it (absolute or relative),
/// `name` is the base name (the final path component), and `kind` is the
/// node's resolved kind. A symbolic link is classified by its own metadata,
/// never by its target's, so a broken link is still `Link`. A node of some
/// other kind (a socket, a pipe) has no kind here: `kind` is `None`, and
/// such an entry never satisfies a non-trivial type filter.
pub struct Entry {
    pub path: String,
    pub name: String,
    pub kind: Option<EntryType>,
}

/// The mathematical content of an [`Entry`].
pub struct EntryModel {
    pub path: Seq<char>,
    pub name: Seq<char>,
    pub kind: Option<EntryType>,
}

impl View for Entry {
    type V = EntryModel;

    open spec fn view(&self) -> EntryModel {
        EntryModel { path: self.path@, name: self.name@, kind: self.kind }
    }
}

/// One outcome of a walk step: either an entry, or a traversal error
/// (permission denied, an unreadable node, a name that is not valid text)
/// carried as the message to report. An error event never aborts the walk;
/// the events after it are still processed.
pub enum WalkEvent {
    Item(Entry),
    Error(String),
}

/// The mathematical content of a [`WalkEvent`].
pub enum WalkEventModel {
    Item(EntryModel),
    Error(Seq<char>),
}

impl View for WalkEvent {
    type V = WalkEventModel;

    open spec fn view(&self) -> WalkEventModel {
        match self {
            WalkEvent::Item(e) => WalkEventModel::Item(e@),
            WalkEvent::Error(m) => WalkEventModel::Error(m@),
        }
    }
}

impl Entry {
    /// Builds an entry from its parts.
    pub fn new(path: String, name: String, kind: Option<EntryType>) -> (r: Entry)
        ensures
            r@.path == path@,
            r@.name == name@,
            r@.kind == kind,
    {
        Entry { path, name, kind }
    }
}

} // verus!
