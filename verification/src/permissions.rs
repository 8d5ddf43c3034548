//! The check that goes before every read of a private signing key.

use vstd::prelude::*;

verus! {

/// A key file that others than its owner may read or write.
#[derive(Clone, Copy, Debug, PartialEq, Eq, Structural)]
pub struct PermissionError {
    /// The mode bits of the file.
    pub mode: u32,
}

/// Whether a file's mode bits leave the file to its owner alone.
pub open spec fn is_private_mode(mode: u32) -> bool {
    mode & 0o077 == 0
}

/// Checks the mode bits of a signing key file: a file that its group or
/// others may read, write or run is refused, unless the check is waived.
pub fn check_file_permissions(mode: u32, ignore_permissions: bool) -> (checked: Result<
    (),
    PermissionError,
>)
    ensures
        checked is Ok <==> ignore_permissions || is_private_mode(mode),
        checked matches Err(e) ==> e.mode == mode,
{
    if !ignore_permissions && mode & 0o077 != 0 {
        Err(PermissionError { mode })
    } else {
        Ok(())
    }
}

} // verus!
