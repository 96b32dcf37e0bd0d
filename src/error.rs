use vstd::prelude::*;

use crate::profile::UserProfileError;

verus! {

/// What an operation of the user store or the code store reports.
#[derive(Debug, Clone, Copy, PartialEq, Eq)]
pub enum LocalStorageError {
    /// No record, or no code list, for the address.
    UserNotFound,
    /// A record for the address exists already.
    UserAlreadyExists,
    /// A stored profile document could not be read.
    UserProfileError(UserProfileError),
    /// No code of the address's list equals the one presented.
    CodeNotValid,
    /// The code presented has expired.
    CodeExpired,
    /// The code document could not be written or read.
    YamlError,
}

} // verus!
