//! The error value shared by every fallible operation of the library.

use vstd::prelude::*;

verus! {

/// The reason an operation failed.
#[derive(Clone, Copy, Debug, PartialEq, Eq, Structural)]
pub enum ErrorKind {
    /// The persistent store could not be opened, queried or written.
    Store,
    /// A selection that an operation refers to does not exist.
    NotFound,
    /// A URL could not be split into scheme and host.
    Parse,
    /// A prediction was asked of a store without any selection.
    EmptyState,
    /// A failure described by its message alone.
    Other,
}

/// A failure with its kind and a message for the user.
#[derive(Debug)]
pub struct BSError {
    pub kind: ErrorKind,
    pub msg: String,
}

pub type BSResult<T> = Result<T, BSError>;

impl BSError {
    /// An error of kind `Other` that carries `msg`.
    pub fn new(msg: &str) -> (e: BSError)
        ensures
            e.kind == ErrorKind::Other,
            e.msg@ == msg@,
    {
        BSError { kind: ErrorKind::Other, msg: msg.to_owned() }
    }

    /// An error of the given kind that carries `msg`.
    pub fn with_kind(kind: ErrorKind, msg: &str) -> (e: BSError)
        ensures
            e.kind == kind,
            e.msg@ == msg@,
    {
        BSError { kind, msg: msg.to_owned() }
    }

    /// The error for a failure of the store, whose own words are `detail`.
    pub fn store(detail: &str) -> (e: BSError)
        ensures
            e.kind == ErrorKind::Store,
            e.msg@ == "SQLite Error:- "@ + detail@,
    {
        BSError { kind: ErrorKind::Store, msg: String::from_str("SQLite Error:- ").concat(detail) }
    }

    /// The kind of this error.
    pub fn kind(&self) -> (k: ErrorKind)
        ensures
            k == self.kind,
    {
        self.kind
    }

    /// The message, as shown to the user.
    pub fn message(&self) -> (m: String)
        ensures
            m@ == self.msg@,
    {
        self.msg.clone()
    }
}

impl Default for BSError {
    fn default() -> (e: BSError)
        ensures
            e.kind == ErrorKind::Other,
            e.msg@ == Seq::<char>::empty(),
    {
        BSError { kind: ErrorKind::Other, msg: String::new() }
    }
}

} // verus!
