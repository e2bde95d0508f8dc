//! The user-visible failure kinds of the file slash command.

use vstd::prelude::*;

verus! {

/// The filesystem collaborator's failure kind, carried through unchanged
/// rather than flattened into a generic failure.
#[derive(Clone, Copy, Debug, PartialEq, Eq, Structural)]
pub enum IoErrorKind {
    NotFound,
    PermissionDenied,
    Other,
}

/// Why a file insertion failed. `MissingArgument` means the command was
/// invoked with no path argument at all; `PathNotFound` means the argument
/// did not resolve inside any known project root; `IoFailure` means the
/// content of a resolved path could not be loaded, and says why not.
#[derive(Clone, Copy, Debug, PartialEq, Eq, Structural)]
pub enum InsertionError {
    MissingArgument,
    PathNotFound,
    IoFailure(IoErrorKind),
}

impl InsertionError {
    /// A descriptive, user-facing message for the failure.
    pub fn message(&self) -> (r: String)
        ensures
            *self is MissingArgument ==> r@ == "missing path argument"@,
            *self is PathNotFound ==> r@ == "path not found in any project root"@,
            *self == InsertionError::IoFailure(IoErrorKind::NotFound) ==> r@
                == "failed to load file content: not found"@,
            *self == InsertionError::IoFailure(IoErrorKind::PermissionDenied) ==> r@
                == "failed to load file content: permission denied"@,
            *self == InsertionError::IoFailure(IoErrorKind::Other) ==> r@
                == "failed to load file content"@,
    {
        match self {
            InsertionError::MissingArgument => "missing path argument".to_owned(),
            InsertionError::PathNotFound => "path not found in any project root".to_owned(),
            InsertionError::IoFailure(IoErrorKind::NotFound) => {
                "failed to load file content: not found".to_owned()
            },
            InsertionError::IoFailure(IoErrorKind::PermissionDenied) => {
                "failed to load file content: permission denied".to_owned()
            },
            InsertionError::IoFailure(IoErrorKind::Other) => {
                "failed to load file content".to_owned()
            },
        }
    }
}

} // verus!
