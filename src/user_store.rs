use vstd::prelude::*;

use crate::email::EMail;
use crate::error::LocalStorageError;
use crate::profile::{no_newline, parse_profile, ProfileFields, UserProfile};

verus! {

/// `name` placed under the directory `dir`.
pub open spec fn join_path(dir: Seq<char>, name: Seq<char>) -> Seq<char> {
    if dir.len() == 0 {
        name
    } else if dir[dir.len() - 1] == '/' {
        dir + name
    } else {
        dir + seq!['/'] + name
    }
}

/// The name of the profile document inside a user's directory.
pub open spec fn profile_file_name() -> Seq<char> {
    seq!['.', 'u', 's', 'e', 'r', 'p', 'r', 'o', 'f', 'i', 'l', 'e']
}

/// The directory of a user: the address under the data directory.
pub open spec fn user_folder_path(dir: Seq<char>, email: Seq<char>) -> Seq<char> {
    join_path(dir, email)
}

/// The profile document of a user, inside the user's directory.
pub open spec fn user_profile_path(dir: Seq<char>, email: Seq<char>) -> Seq<char> {
    join_path(user_folder_path(dir, email), profile_file_name())
}

/// What reading a user gives, from the profile document as stored (`None`
/// where there is none).
pub open spec fn stored_user(stored: Option<Seq<char>>) -> Result<ProfileFields, LocalStorageError> {
    match stored {
        None => Err(LocalStorageError::UserNotFound),
        Some(text) => match parse_profile(text) {
            Ok(f) => Ok(f),
            Err(e) => Err(LocalStorageError::UserProfileError(e)),
        },
    }
}

fn join(dir: &str, name: &str) -> (r: String)
    ensures
        r@ == join_path(dir@, name@),
{
    let n = dir.unicode_len();
    if n == 0 {
        return String::from_str(name);
    }
    let mut out = String::from_str(dir);
    if dir.get_char(n - 1) != '/' {
        proof {
            reveal_strlit("/");
        }
        out.append("/");
    }
    out.append(name);
    assert(out@ =~= join_path(dir@, name@));
    out
}

/// The directory that holds the user's files.
pub fn get_user_folder(dir: &str, email: &EMail) -> (r: String)
    ensures
        r@ == user_folder_path(dir@, email@),
{
    join(dir, email.as_str())
}

/// The path of the user's profile document.
pub fn get_user_profile(dir: &str, email: &EMail) -> (r: String)
    ensures
        r@ == user_profile_path(dir@, email@),
{
    let folder = get_user_folder(dir, email);
    proof {
        reveal_strlit(".userprofile");
    }
    assert(".userprofile"@ =~= profile_file_name());
    join(folder.as_str(), ".userprofile")
}

/// The stored document as plain text, if there is one.
pub open spec fn stored_view(stored: Option<&str>) -> Option<Seq<char>> {
    match stored {
        Some(t) => Some(t@),
        None => None,
    }
}

/// Reads a user from the text of a profile document (`None` where the
/// document does not exist).
pub fn read_user(stored: Option<&str>) -> (r: Result<UserProfile, LocalStorageError>)
    ensures
        r matches Ok(p) ==> stored_user(stored_view(stored)) == Ok::<
            ProfileFields,
            LocalStorageError,
        >(p.fields()),
        r matches Err(e) ==> stored_user(stored_view(stored)) == Err::<ProfileFields, LocalStorageError>(
            e,
        ),
{
    match stored {
        None => Err(LocalStorageError::UserNotFound),
        Some(text) => match UserProfile::from_yaml(text) {
            Ok(p) => Ok(p),
            Err(e) => Err(LocalStorageError::UserProfileError(e)),
        },
    }
}

/// The user store kept under a data directory: one directory per address,
/// holding that user's profile document. The caller reads and writes the
/// files; this type says where they are and what each operation decides.
#[derive(Debug)]
pub struct UserLocalStorage {
    dir: String,
}

impl View for UserLocalStorage {
    type V = Seq<char>;

    closed spec fn view(&self) -> Seq<char> {
        self.dir@
    }
}

/// A store of the service's state.
pub trait Storage {

}

impl Storage for UserLocalStorage {

}

impl UserLocalStorage {
    /// The store under the data directory `data_dir`.
    pub fn create(data_dir: &str) -> (r: UserLocalStorage)
        ensures
            r@ == data_dir@,
    {
        UserLocalStorage { dir: String::from_str(data_dir) }
    }

    /// The data directory.
    pub fn dir(&self) -> (r: &str)
        ensures
            r@ == self@,
    {
        self.dir.as_str()
    }

    /// The directory of the user with this address.
    pub fn user_folder(&self, email: &EMail) -> (r: String)
        ensures
            r@ == user_folder_path(self@, email@),
    {
        get_user_folder(self.dir.as_str(), email)
    }

    /// The profile document of the user with this address.
    pub fn user_profile(&self, email: &EMail) -> (r: String)
        ensures
            r@ == user_profile_path(self@, email@),
    {
        get_user_profile(self.dir.as_str(), email)
    }

    /// Reads a user from the text of the profile document (`None` where the
    /// document does not exist).
    pub fn get_user(&self, email: &EMail, stored: Option<&str>) -> (r: Result<
        UserProfile,
        LocalStorageError,
    >)
        ensures
            r matches Ok(p) ==> stored_user(stored_view(stored)) == Ok::<
                ProfileFields,
                LocalStorageError,
            >(p.fields()),
            r matches Err(e) ==> stored_user(stored_view(stored)) == Err::<
                ProfileFields,
                LocalStorageError,
            >(e),
    {
        read_user(stored)
    }

    /// Creates a user: refused where the profile document exists already;
    /// otherwise the record whose document the caller writes to
    /// `user_profile(email)`, after creating `user_folder(email)`.
    pub fn create_user(
        &self,
        email: &EMail,
        password: &str,
        is_admin: bool,
        sync15: bool,
        profile_exists: bool,
    ) -> (r: Result<UserProfile, LocalStorageError>)
        requires
            no_newline(password@),
        ensures
            profile_exists <==> r is Err,
            r matches Err(e) ==> e == LocalStorageError::UserAlreadyExists,
            r matches Ok(p) ==> p.fields() == (ProfileFields {
                email: email@,
                password: password@,
                is_admin,
                sync15,
            }),
    {
        if profile_exists {
            Err(LocalStorageError::UserAlreadyExists)
        } else {
            Ok(UserProfile::new(email.clone(), String::from_str(password), is_admin, sync15))
        }
    }

    /// Replaces a user's record: refused where the profile document does not
    /// exist; otherwise the new record, whose document the caller writes in
    /// place of the old one. The user's directory stays.
    pub fn edit_user(
        &self,
        email: &EMail,
        password: &str,
        is_admin: bool,
        sync15: bool,
        profile_exists: bool,
    ) -> (r: Result<UserProfile, LocalStorageError>)
        requires
            no_newline(password@),
        ensures
            !profile_exists <==> r is Err,
            r matches Err(e) ==> e == LocalStorageError::UserNotFound,
            r matches Ok(p) ==> p.fields() == (ProfileFields {
                email: email@,
                password: password@,
                is_admin,
                sync15,
            }),
    {
        if !profile_exists {
            Err(LocalStorageError::UserNotFound)
        } else {
            Ok(UserProfile::new(email.clone(), String::from_str(password), is_admin, sync15))
        }
    }

    /// Deletes a user: refused where the user's directory does not exist;
    /// otherwise the caller removes `user_folder(email)` with all it holds.
    pub fn delete_user(&self, email: &EMail, folder_exists: bool) -> (r: Result<
        (),
        LocalStorageError,
    >)
        ensures
            folder_exists <==> r is Ok,
            r matches Err(e) ==> e == LocalStorageError::UserNotFound,
    {
        if folder_exists {
            Ok(())
        } else {
            Err(LocalStorageError::UserNotFound)
        }
    }
}

} // verus!
