//! The error taxonomy. Every failure is fatal at the point it occurs: there is
//! no retry and no partial result.

use vstd::prelude::*;

verus! {

/// What went wrong. Each variant is unrecoverable: the caller aborts.
#[derive(Clone, Copy, Debug, PartialEq, Eq, Structural)]
pub enum IoError {
    /// The file is missing, unreadable, or the path is invalid.
    OpenFailed,
    /// A read on the open file failed.
    ReadFailed,
    /// The file's metadata could not be queried.
    StatFailed,
    /// The file's contents could not be mapped into memory.
    MapFailed,
    /// The command line did not hold exactly one file path.
    InvalidArguments,
}

impl IoError {
    /// A human-readable label naming the failing operation.
    pub fn describe(&self) -> (s: &'static str)
        ensures
            *self is OpenFailed ==> s@ == "unable to open file"@,
            *self is ReadFailed ==> s@ == "unable to read file"@,
            *self is StatFailed ==> s@ == "unable to get metadata"@,
            *self is MapFailed ==> s@ == "unable to map file"@,
            *self is InvalidArguments ==> s@ == "invalid number of arguments"@,
    {
        match self {
            IoError::OpenFailed => "unable to open file",
            IoError::ReadFailed => "unable to read file",
            IoError::StatFailed => "unable to get metadata",
            IoError::MapFailed => "unable to map file",
            IoError::InvalidArguments => "invalid number of arguments",
        }
    }
}

} // verus!
