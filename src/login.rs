use vstd::prelude::*;

use crate::codes::{code_check, CodeLocalStorage};
use crate::email::{is_email, EMail};
use crate::error::LocalStorageError;
use crate::profile::{ProfileFields, UserProfile};
use crate::token::AuthError;
use crate::user_store::{read_user, stored_user, stored_view};

verus! {

/// Decides a login request at `now`: the address must match the grammar and
/// the code must validate for it. Every failure is the same `Unauthorized`,
/// whatever its cause. The code is not consumed.
pub fn check_login(codes: &CodeLocalStorage, email: &str, code: &str, now: i64) -> (r: Result<
    EMail,
    AuthError,
>)
    ensures
        r is Ok <==> is_email(email@) && code_check(codes@, email@, code@, now) == Ok::<
            (),
            LocalStorageError,
        >(()),
        r matches Ok(e) ==> e@ == email@,
{
    let e = match EMail::create(email) {
        Err(_) => {
            return Err(AuthError::Unauthorized);
        },
        Ok(e) => e,
    };
    match codes.validate_code_at(&e, code, now) {
        Ok(()) => Ok(e),
        Err(_) => Err(AuthError::Unauthorized),
    }
}

/// Decides a login request at `now` from the presented address and code and
/// the user's stored profile document (`None` where there is none): the
/// address must match the grammar, the code must validate for it, and the
/// user's record must read back. Success needs all three; every failure is
/// the same `Unauthorized`.
pub fn login_user(
    codes: &CodeLocalStorage,
    email: &str,
    code: &str,
    now: i64,
    stored: Option<&str>,
) -> (r: Result<UserProfile, AuthError>)
    ensures
        r is Ok <==> is_email(email@) && code_check(codes@, email@, code@, now) == Ok::<
            (),
            LocalStorageError,
        >(()) && stored_user(stored_view(stored)) is Ok,
        r matches Ok(p) ==> stored_user(stored_view(stored)) == Ok::<
            ProfileFields,
            LocalStorageError,
        >(p.fields()),
{
    check_login(codes, email, code, now)?;
    match read_user(stored) {
        Ok(p) => Ok(p),
        Err(_) => Err(AuthError::Unauthorized),
    }
}

/// How the outcome of a code validation reads to an administrator.
#[derive(Debug, Clone, Copy, PartialEq, Eq)]
pub enum ValidationReport {
    Valid,
    Expired,
    NotValid,
}

/// The report of a code validation: valid, expired or not valid; any other
/// failure is passed on.
pub fn validation_report(outcome: Result<(), LocalStorageError>) -> (r: Result<
    ValidationReport,
    LocalStorageError,
>)
    ensures
        outcome is Ok <==> r == Ok::<ValidationReport, LocalStorageError>(ValidationReport::Valid),
        outcome == Err::<(), LocalStorageError>(LocalStorageError::CodeExpired) <==> r == Ok::<
            ValidationReport,
            LocalStorageError,
        >(ValidationReport::Expired),
        outcome == Err::<(), LocalStorageError>(LocalStorageError::CodeNotValid) <==> r == Ok::<
            ValidationReport,
            LocalStorageError,
        >(ValidationReport::NotValid),
        r matches Err(e) ==> outcome == Err::<(), LocalStorageError>(e),
{
    match outcome {
        Ok(()) => Ok(ValidationReport::Valid),
        Err(LocalStorageError::CodeExpired) => Ok(ValidationReport::Expired),
        Err(LocalStorageError::CodeNotValid) => Ok(ValidationReport::NotValid),
        Err(e) => Err(e),
    }
}

impl ValidationReport {
    /// The line shown to the administrator.
    pub fn message(&self) -> (r: &'static str)
        ensures
            *self == ValidationReport::Valid ==> r@ == "Code is valid."@,
            *self == ValidationReport::Expired ==> r@ == "Code is already expired."@,
            *self == ValidationReport::NotValid ==> r@ == "Code is not valid."@,
    {
        match self {
            ValidationReport::Valid => "Code is valid.",
            ValidationReport::Expired => "Code is already expired.",
            ValidationReport::NotValid => "Code is not valid.",
        }
    }
}

} // verus!
