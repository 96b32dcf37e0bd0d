use vstd::prelude::*;

use crate::codes::{
    code_check, codes_for, expiry_after, is_code, list_or_empty, other_code, retained, unexpired,
    CodeLocalStorage,
};
use crate::email::EMail;
use crate::error::LocalStorageError;
use crate::profile::{no_newline, ProfileFields, UserProfile};
use crate::user_store::{stored_user, stored_view, Storage, UserLocalStorage};

verus! {

/// The operations of a user store. The caller performs the file work: it
/// says whether the user's files exist, and hands over the stored profile.
pub trait UserStorage: Storage {
    fn get_user(&self, email: &EMail, stored: Option<&str>) -> (r: Result<UserProfile, LocalStorageError>)
        ensures
            r matches Ok(p) ==> stored_user(stored_view(stored)) == Ok::<
                ProfileFields,
                LocalStorageError,
            >(p.fields()),
            r matches Err(e) ==> stored_user(stored_view(stored)) == Err::<
                ProfileFields,
                LocalStorageError,
            >(e),
    ;

    fn create_user(
        &self,
        email: &EMail,
        password: &str,
        is_admin: bool,
        sync15: bool,
        profile_exists: bool,
    ) -> (r: Result<UserProfile, LocalStorageError>)
        requires
            no_newline(password@),
        ensures
            profile_exists <==> r is Err,
            r matches Err(e) ==> e == LocalStorageError::UserAlreadyExists,
            r matches Ok(p) ==> p.fields() == (ProfileFields {
                email: email@,
                password: password@,
                is_admin,
                sync15,
            }),
    ;

    fn edit_user(
        &self,
        email: &EMail,
        password: &str,
        is_admin: bool,
        sync15: bool,
        profile_exists: bool,
    ) -> (r: Result<UserProfile, LocalStorageError>)
        requires
            no_newline(password@),
        ensures
            !profile_exists <==> r is Err,
            r matches Err(e) ==> e == LocalStorageError::UserNotFound,
            r matches Ok(p) ==> p.fields() == (ProfileFields {
                email: email@,
                password: password@,
                is_admin,
                sync15,
            }),
    ;

    fn delete_user(&self, email: &EMail, folder_exists: bool) -> (r: Result<(), LocalStorageError>)
        ensures
            folder_exists <==> r is Ok,
            r matches Err(e) ==> e == LocalStorageError::UserNotFound,
    ;
}

impl UserStorage for UserLocalStorage {
    fn get_user(&self, email: &EMail, stored: Option<&str>) -> (r: Result<UserProfile, LocalStorageError>) {
        UserLocalStorage::get_user(self, email, stored)
    }

    fn create_user(
        &self,
        email: &EMail,
        password: &str,
        is_admin: bool,
        sync15: bool,
        profile_exists: bool,
    ) -> (r: Result<UserProfile, LocalStorageError>) {
        UserLocalStorage::create_user(self, email, password, is_admin, sync15, profile_exists)
    }

    fn edit_user(
        &self,
        email: &EMail,
        password: &str,
        is_admin: bool,
        sync15: bool,
        profile_exists: bool,
    ) -> (r: Result<UserProfile, LocalStorageError>) {
        UserLocalStorage::edit_user(self, email, password, is_admin, sync15, profile_exists)
    }

    fn delete_user(&self, email: &EMail, folder_exists: bool) -> (r: Result<(), LocalStorageError>) {
        UserLocalStorage::delete_user(self, email, folder_exists)
    }
}

/// The operations of a code store, over its lists of codes.
pub trait CodeStorage: Storage {
    /// The store's lists, one per address.
    spec fn code_lists(&self) -> Seq<(Seq<char>, Seq<(Seq<char>, i64)>)>;

    fn validate_code(&self, email: &EMail, code: &str) -> (r: Result<(), LocalStorageError>)
        ensures
            exists|now: i64| now >= 0 && r == code_check(self.code_lists(), email@, code@, now),
    ;

    fn create_code(&mut self, email: &EMail) -> (r: String)
        ensures
            is_code(r@),
            exists|now: i64|
                now >= 0 && codes_for(final(self).code_lists(), email@) == Some(
                    list_or_empty(old(self).code_lists(), email@).push((r@, expiry_after(now))),
                ),
            forall|k: Seq<char>|
                k != email@ ==> #[trigger] codes_for(final(self).code_lists(), k) == codes_for(
                    old(self).code_lists(),
                    k,
                ),
    ;

    fn remove_code(&mut self, email: &EMail, code: &str)
        ensures
            codes_for(final(self).code_lists(), email@) == retained(
                codes_for(old(self).code_lists(), email@),
                other_code(code@),
            ),
            forall|k: Seq<char>|
                k != email@ ==> #[trigger] codes_for(final(self).code_lists(), k) == codes_for(
                    old(self).code_lists(),
                    k,
                ),
    ;

    fn clean_codes(&mut self)
        ensures
            exists|now: i64|
                #![trigger unexpired(now)]
                now >= 0 && forall|k: Seq<char>|
                    #[trigger] codes_for(final(self).code_lists(), k) == retained(
                        codes_for(old(self).code_lists(), k),
                        unexpired(now),
                    ),
    ;
}

impl CodeStorage for CodeLocalStorage {
    open spec fn code_lists(&self) -> Seq<(Seq<char>, Seq<(Seq<char>, i64)>)> {
        self@
    }

    fn validate_code(&self, email: &EMail, code: &str) -> (r: Result<(), LocalStorageError>) {
        let r = CodeLocalStorage::validate_code(self, email, code);
        proof {
            let now = choose|now: i64| now >= 0 && r == code_check(self@, email@, code@, now);
            assert(now >= 0 && r == code_check(self.code_lists(), email@, code@, now));
        }
        r
    }

    fn create_code(&mut self, email: &EMail) -> (r: String) {
        CodeLocalStorage::create_code(self, email)
    }

    fn remove_code(&mut self, email: &EMail, code: &str) {
        CodeLocalStorage::remove_code(self, email, code)
    }

    fn clean_codes(&mut self) {
        let ghost before = self@;
        CodeLocalStorage::clean_codes(self);
        proof {
            let now = choose|now: i64|
                #![trigger unexpired(now)]
                now >= 0 && forall|k: Seq<char>|
                    #[trigger] codes_for(self@, k) == retained(codes_for(before, k), unexpired(now));
            assert(unexpired(now) == unexpired(now));
        }
    }
}

} // verus!
