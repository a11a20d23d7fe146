//! The failures that the generator and the runtime report.

use vstd::prelude::*;

verus! {

/// Why an operation of the bundler or of a running bundle gave up.
#[derive(Clone, Copy, Debug, PartialEq, Eq, Structural)]
pub enum RexError {
    /// A required path does not exist.
    InputNotFound,
    /// The target is not an ELF file.
    InvalidElf,
    /// The target path has no final component to name the bundle after.
    InvalidName,
    /// A marker was found but the fields before it cannot be a trailer.
    CorruptTrailer,
    /// The running image carries no payload.
    NoPayload,
    /// The payload is not a compressed stream that decodes.
    CorruptPayload,
    /// An archive entry would be written outside the destination.
    UnsafeEntry,
    /// Neither dynamic loader is present among the extracted libraries.
    LoaderMissing,
    /// The extracted tree lacks the target binary.
    TargetMissing,
    /// The target ran and ended with this non-zero code.
    ChildFailure(i32),
    /// The compression level is outside 1 to 22.
    InvalidLevel,
    /// The file system or the codec failed.
    IoError,
}

impl RexError {
    /// The code with which the process ends on this failure: the child's own
    /// code where the child failed, 1 otherwise.
    pub open spec fn spec_exit_code(self) -> i32 {
        match self {
            RexError::ChildFailure(code) => code,
            _ => 1,
        }
    }

    /// Whether a diagnostic is printed for this failure. A failing child
    /// speaks for itself.
    pub open spec fn spec_is_reported(self) -> bool {
        !(self is ChildFailure)
    }

    pub fn exit_code(&self) -> (code: i32)
        ensures
            code == self.spec_exit_code(),
    {
        match self {
            RexError::ChildFailure(code) => *code,
            _ => 1,
        }
    }

    pub fn is_reported(&self) -> (b: bool)
        ensures
            b == self.spec_is_reported(),
    {
        match self {
            RexError::ChildFailure(_) => false,
            _ => true,
        }
    }
}

} // verus!
