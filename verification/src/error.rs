//! The kinds of failure of an extraction, and the error that carries one.

use vstd::prelude::*;
use vstd::string::StringExecFns;

verus! {

/// What went wrong.
#[derive(Debug, Clone, Copy, PartialEq, Eq, Structural)]
pub enum ErrorKind {
    /// No file name can be derived from the path.
    InvalidPath,
    /// The path does not exist.
    NotFound,
    /// The path exists and is no regular file.
    NotAFile,
    /// No parser is known for the extension.
    UnsupportedFormat,
    /// The parser chosen for the extension turns the path down.
    ValidationFailed,
    /// Opening or reading the file failed.
    Io,
    /// The delimited text is malformed.
    StructuralParse,
    /// The paginated document cannot be decoded, a wrong or missing password included.
    FormatDecode,
}

/// A failure: its kind and a message for the reader.
#[derive(Debug)]
pub struct ExtractionError {
    pub kind: ErrorKind,
    pub message: String,
}

impl ExtractionError {
    pub fn new(kind: ErrorKind, message: String) -> (e: ExtractionError)
        ensures
            e.kind == kind,
            e.message@ == message@,
    {
        ExtractionError { kind, message }
    }

    /// The kind of this failure.
    pub fn kind(&self) -> (k: ErrorKind)
        ensures
            k == self.kind,
    {
        self.kind
    }

    /// The message of this failure.
    pub fn message(&self) -> (m: &str)
        ensures
            m@ == self.message@,
    {
        self.message.as_str()
    }
}

/// `prefix` followed by `rest`.
pub fn prefixed(prefix: &str, rest: &str) -> (r: String)
    ensures
        r@ == prefix@ + rest@,
{
    String::from_str(prefix).concat(rest)
}

} // verus!
