//! The failures that catalog operations report.

use vstd::prelude::*;

verus! {

/// The kind of a failure.
#[derive(Clone, Copy, Debug, PartialEq, Eq, Structural)]
pub enum ErrorKind {
    /// The document or configuration asked for is not stored.
    NotFound,
    /// A stored file exists but does not hold a document.
    Corrupt,
    /// The storage itself failed: permissions, a full disk and the like.
    StorageIO,
    /// The request is malformed: an identifier, a format name, a filter
    /// combination or a regular expression.
    InvalidInput,
    /// The target of an import exists and overwriting was not asked for.
    Conflict,
}

/// A failure with its kind and a message for the user.
#[derive(Debug, PartialEq, Eq)]
pub struct StoreError {
    pub kind: ErrorKind,
    pub message: String,
}

/// The mathematical value of a failure.
pub struct ErrorModel {
    pub kind: ErrorKind,
    pub message: Seq<char>,
}

impl View for StoreError {
    type V = ErrorModel;

    open spec fn view(&self) -> ErrorModel {
        ErrorModel { kind: self.kind, message: self.message@ }
    }
}

impl StoreError {
    /// A failure of the given kind with the given message.
    pub fn new(kind: ErrorKind, message: String) -> (e: StoreError)
        ensures
            e@ == (ErrorModel { kind, message: message@ }),
    {
        StoreError { kind, message }
    }

    /// A failure whose message is `prefix` followed by `detail`.
    pub fn with_detail(kind: ErrorKind, prefix: &str, detail: &str) -> (e: StoreError)
        ensures
            e@ == (ErrorModel { kind, message: prefix@ + detail@ }),
    {
        let mut message = String::from_str(prefix);
        message.append(detail);
        StoreError { kind, message }
    }

    /// The message, for display.
    pub fn to_string(&self) -> (s: String)
        ensures
            s@ == self.message@,
    {
        self.message.clone()
    }
}

} // verus!
