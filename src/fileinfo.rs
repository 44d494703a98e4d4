//! File identifier and format version of an open file.
use vstd::prelude::*;

verus! {

/// The identifier and format version recorded in a file.
#[derive(Debug, Clone, Copy, PartialEq, Eq, Structural)]
pub struct FileInfo {
    pub file_identifier: u128,
    pub major: u16,
    pub minor: u16,
    pub revision: u16,
}

impl FileInfo {
    /// The file identifier, as the 128-bit big-endian value of its 16 bytes.
    pub fn file_identifier(&self) -> (r: u128)
        ensures
            r == self.file_identifier,
    {
        self.file_identifier
    }

    /// The major version of the file format.
    pub fn major_version(&self) -> (r: u16)
        ensures
            r == self.major,
    {
        self.major
    }

    /// The minor version of the file format.
    pub fn minor_version(&self) -> (r: u16)
        ensures
            r == self.minor,
    {
        self.minor
    }

    /// The revision of the file format.
    pub fn revision_version(&self) -> (r: u16)
        ensures
            r == self.revision,
    {
        self.revision
    }
}

} // verus!
