//! Memory cells: a value under a name, written by compare-and-swap.

use crate::plain::{copy_opt, opt_view, same_opt, Plain};
use vstd::prelude::*;

verus! {

/// What the backing store calls one state of a cell.
#[derive(Clone, Debug, PartialEq, Eq, Hash)]
pub struct Version(pub Vec<u8>);

impl View for Version {
    type V = Seq<u8>;

    open spec fn view(&self) -> Seq<u8> {
        self.0@
    }
}

impl Plain for Version {
    fn copy(&self) -> (result: Self) {
        Version(self.0.copy())
    }

    fn same(&self, other: &Self) -> (result: bool) {
        self.0.same(&other.0)
    }
}

/// Why the backing store refused to read or write a cell.
#[derive(Clone, Debug, PartialEq, Eq)]
pub enum MemoryError {
    /// The cell is not in the state that the caller expected.
    VersionMismatch {
        /// The version that the caller held.
        expected: Option<Version>,
        /// The version that the store holds.
        actual: Option<Version>,
    },
    /// The backend failed.
    Storage(String),
    /// Access was denied.
    Authorization(String),
    /// Reading or writing failed.
    Io(String),
}

/// The state of a cell that a write builds on. The write takes place only if
/// the store still holds that state.
#[derive(Clone, Debug, PartialEq, Eq)]
pub struct Checkpoint {
    /// The version of that state; none where the cell had no value.
    pub expected: Option<Version>,
}

impl View for Checkpoint {
    type V = Option<Seq<u8>>;

    open spec fn view(&self) -> Option<Seq<u8>> {
        opt_view(self.expected)
    }
}

impl Plain for Checkpoint {
    fn copy(&self) -> (result: Self) {
        Checkpoint { expected: copy_opt(&self.expected) }
    }

    fn same(&self, other: &Self) -> (result: bool) {
        same_opt(&self.expected, &other.expected)
    }
}

/// What a handle knows of a cell: the value and the version last seen.
#[derive(Clone, Debug, PartialEq, Eq)]
pub struct Cell<T> {
    /// The value, if the cell had one.
    pub content: Option<T>,
    /// The version of that value.
    pub version: Option<Version>,
}

/// What a [`Cell`] holds.
#[verifier::ext_equal]
pub struct CellView<V> {
    pub content: Option<V>,
    pub version: Option<Seq<u8>>,
}

impl<T: View> View for Cell<T> {
    type V = CellView<T::V>;

    open spec fn view(&self) -> CellView<T::V> {
        CellView { content: opt_view(self.content), version: opt_view(self.version) }
    }
}

impl<T: Plain> Cell<T> {
    /// A cell of which nothing was seen yet.
    pub fn new() -> (result: Cell<T>)
        ensures
            result@ == (CellView::<T::V> { content: None, version: None }),
    {
        Cell { content: None, version: None }
    }

    /// The value last seen.
    pub fn content(&self) -> (result: Option<T>)
        ensures
            opt_view(result) == self@.content,
    {
        copy_opt(&self.content)
    }

    /// The state that a write made now builds on.
    pub fn checkpoint(&self) -> (result: Checkpoint)
        ensures
            result@ == self@.version,
    {
        Checkpoint { expected: copy_opt(&self.version) }
    }

    /// Takes note of a value that was written.
    pub fn published(&mut self, content: T, version: Version)
        ensures
            final(self)@ == (CellView { content: Some(content@), version: Some(version@) }),
    {
        self.content = Some(content);
        self.version = Some(version);
    }

    /// Takes note of what the store holds: nothing, or a value and its
    /// version.
    pub fn resolved(&mut self, state: Option<(T, Version)>)
        ensures
            final(self)@ == (match state {
                Some((content, version)) => CellView {
                    content: Some(content@),
                    version: Some(version@),
                },
                None => CellView::<T::V> { content: None, version: None },
            }),
    {
        match state {
            Some((content, version)) => {
                self.content = Some(content);
                self.version = Some(version);
            },
            None => {
                self.content = None;
                self.version = None;
            },
        }
    }
}

} // verus!
