//! The envelope that every parser returns.

use vstd::prelude::*;

verus! {

/// What was extracted from a file, with the file's base name.
#[derive(Debug)]
pub struct ParsedData<T> {
    data: T,
    file_name: String,
}

impl<T> ParsedData<T> {
    /// What was extracted.
    pub closed spec fn payload(&self) -> T {
        self.data
    }

    /// The base name of the file it came from.
    pub closed spec fn name(&self) -> Seq<char> {
        self.file_name@
    }

    pub fn new(data: T, file_name: String) -> (p: Self)
        ensures
            p.payload() == data,
            p.name() == file_name@,
    {
        Self { data, file_name }
    }

    pub fn data(&self) -> (d: &T)
        ensures
            *d == self.payload(),
    {
        &self.data
    }

    pub fn file_name(&self) -> (n: &str)
        ensures
            n@ == self.name(),
    {
        self.file_name.as_str()
    }

    /// Gives up the envelope for what was extracted.
    pub fn into_data(self) -> (d: T)
        ensures
            d == self.payload(),
    {
        self.data
    }
}

} // verus!
