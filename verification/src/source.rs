//! What is known of a file before it is read.

use crate::text::{chars_of, eq_ignore_ascii_case, eq_ignore_case};
use vstd::prelude::*;

verus! {

/// What the file system says there is at a path.
#[derive(Debug, Clone, Copy, PartialEq, Eq, Structural)]
pub enum PathKind {
    /// Nothing.
    Missing,
    /// A regular file.
    File,
    /// Something that is no regular file, such as a directory.
    Other,
}

/// A path and what the file system says of it: what is there, and the
/// path's last component and extension where they can be told.
#[derive(Debug)]
pub struct SourceFile {
    /// The path, as it is shown to the reader.
    pub path: String,
    pub kind: PathKind,
    /// The base name: the last component of the path.
    pub file_name: Option<String>,
    /// The extension, without its dot.
    pub extension: Option<String>,
}

impl SourceFile {
    pub fn new(
        path: String,
        kind: PathKind,
        file_name: Option<String>,
        extension: Option<String>,
    ) -> (s: SourceFile)
        ensures
            s.path@ == path@,
            s.kind == kind,
            s.file_name == file_name,
            s.extension == extension,
    {
        SourceFile { path, kind, file_name, extension }
    }

    /// Whether the extension is `wanted`, whatever the case of its letters.
    pub open spec fn has_extension(&self, wanted: Seq<char>) -> bool {
        self.extension is Some && eq_ignore_case(self.extension->0@, wanted)
    }

    /// Whether this is an existing regular file whose extension is `wanted`.
    pub open spec fn is_file_of(&self, wanted: Seq<char>) -> bool {
        self.kind is File && self.has_extension(wanted)
    }

    /// Tells whether this is an existing regular file whose extension is
    /// `wanted`, whatever the case of its letters. Nothing is opened or read.
    pub fn is_regular_with_extension(&self, wanted: &str) -> (r: bool)
        ensures
            r == self.is_file_of(wanted@),
    {
        match self.kind {
            PathKind::File => {},
            _ => {
                return false;
            },
        }
        match &self.extension {
            Some(ext) => {
                let chars = chars_of(ext.as_str());
                eq_ignore_ascii_case(&chars, wanted)
            },
            None => false,
        }
    }
}

} // verus!
