//! Error taxonomy of the library.

use vstd::prelude::*;

verus! {

/// Discriminant of an [`Error`], used by contracts and callers that only need
/// to know which class of failure occurred.
#[derive(Clone, Copy, Debug, PartialEq, Eq, Structural)]
pub enum ErrorKind {
    /// A file could not be read or written.
    IoError,
    /// Structurally invalid JPEG or PNG bytes: bad magic, truncated chunk,
    /// missing mandatory chunk or marker.
    MalformedHeader,
    /// Well-formed but semantically unhandled input, such as an exotic PNG
    /// color type or an unexpected JPEG component count.
    UnsupportedFormat,
    /// An outside codec (deflate, image decoder) failed.
    EncodeError,
    /// A caller-supplied constraint was violated, such as a page selection
    /// referencing nonexistent pages or an empty input list.
    ValidationError,
}

/// An error of the library: a kind plus a human-readable message.
#[derive(Debug)]
pub struct Error {
    kind: ErrorKind,
    msg: String,
}

impl Error {
    pub closed spec fn spec_kind(&self) -> ErrorKind {
        self.kind
    }

    /// The message the error was built with.
    pub closed spec fn spec_message(&self) -> Seq<char> {
        self.msg@
    }

    /// Builds an error of the given kind.
    pub fn new(kind: ErrorKind, msg: &str) -> (e: Error)
        ensures
            e.spec_kind() == kind,
            e.spec_message() == msg@,
    {
        Error { kind, msg: msg.to_owned() }
    }

    #[verifier::when_used_as_spec(spec_kind)]
    pub fn kind(&self) -> (k: ErrorKind)
        ensures
            k == self.spec_kind(),
    {
        self.kind
    }

    /// The human-readable message the error was built with.
    pub fn message(&self) -> (m: String)
        ensures
            m@ == self.spec_message(),
    {
        self.msg.clone()
    }
}

} // verus!
