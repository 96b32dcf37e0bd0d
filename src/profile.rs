use vstd::prelude::*;

use crate::email::{is_email, EMail, EMailError};

verus! {

/// One of the four keys of a profile document.
#[derive(Debug, Clone, Copy, PartialEq, Eq)]
pub enum ProfileKey {
    Email,
    Password,
    IsAdmin,
    Sync15,
}

/// Why a profile document could not be read.
#[derive(Debug, Clone, Copy, PartialEq, Eq)]
pub enum UserProfileError {
    /// The key has no line in the document.
    MissingKey(ProfileKey),
    /// The key's value is not of the key's type (text, or a boolean for a
    /// flag).
    InvalidType(ProfileKey),
    /// The document is not YAML.
    YamlError,
    /// The stored address does not match the address grammar.
    EMailError(EMailError),
}

/// The key as it is written in a profile document.
pub open spec fn key_text(k: ProfileKey) -> Seq<char> {
    match k {
        ProfileKey::Email => "email"@,
        ProfileKey::Password => "password"@,
        ProfileKey::IsAdmin => "is_admin"@,
        ProfileKey::Sync15 => "sync15"@,
    }
}

/// What stands between a key and its value.
pub open spec fn key_sep() -> Seq<char> {
    seq![':', ' ']
}

pub open spec fn true_text() -> Seq<char> {
    seq!['t', 'r', 'u', 'e']
}

pub open spec fn false_text() -> Seq<char> {
    seq!['f', 'a', 'l', 's', 'e']
}

/// A flag as it is written in a profile document.
pub open spec fn bool_text(b: bool) -> Seq<char> {
    if b {
        true_text()
    } else {
        false_text()
    }
}

/// The line of a key: the key, a colon and a space, then the value.
pub open spec fn key_line(k: ProfileKey, value: Seq<char>) -> Seq<char> {
    key_text(k) + key_sep() + value
}

/// The profile document: one `key: value` line per field, in the order
/// email, password, is_admin, sync15, with no newline after the last.
pub open spec fn profile_text(email: Seq<char>, password: Seq<char>, is_admin: bool, sync15: bool) -> Seq<char> {
    key_line(ProfileKey::Email, email) + seq!['\n'] + key_line(ProfileKey::Password, password)
        + seq!['\n'] + key_line(ProfileKey::IsAdmin, bool_text(is_admin)) + seq!['\n']
        + key_line(ProfileKey::Sync15, bool_text(sync15))
}

/// The four fields of a profile, as plain values.
pub struct ProfileFields {
    pub email: Seq<char>,
    pub password: Seq<char>,
    pub is_admin: bool,
    pub sync15: bool,
}

/// What the top-level mapping of a YAML document holds under a key.
pub enum FieldValue {
    Missing,
    Text(Seq<char>),
    Flag(bool),
    Other,
}

/// What a YAML document holds under `key`; `None` where the text is not a
/// YAML document.
pub uninterp spec fn yaml_field(text: Seq<char>, key: Seq<char>) -> Option<FieldValue>;

/// A field that must be text.
pub open spec fn text_field(s: Seq<char>, k: ProfileKey) -> Result<Seq<char>, UserProfileError> {
    match yaml_field(s, key_text(k)) {
        None => Err(UserProfileError::YamlError),
        Some(FieldValue::Missing) => Err(UserProfileError::MissingKey(k)),
        Some(FieldValue::Text(t)) => Ok(t),
        Some(_) => Err(UserProfileError::InvalidType(k)),
    }
}

/// A field that must be a flag.
pub open spec fn flag_field(s: Seq<char>, k: ProfileKey) -> Result<bool, UserProfileError> {
    match yaml_field(s, key_text(k)) {
        None => Err(UserProfileError::YamlError),
        Some(FieldValue::Missing) => Err(UserProfileError::MissingKey(k)),
        Some(FieldValue::Flag(b)) => Ok(b),
        Some(_) => Err(UserProfileError::InvalidType(k)),
    }
}

/// What a profile document holds, or the first thing wrong with it, checked
/// in the order email, password, is_admin, sync15, then the address grammar.
pub open spec fn parse_profile(s: Seq<char>) -> Result<ProfileFields, UserProfileError> {
    match text_field(s, ProfileKey::Email) {
        Err(e) => Err(e),
        Ok(email) => match text_field(s, ProfileKey::Password) {
            Err(e) => Err(e),
            Ok(password) => match flag_field(s, ProfileKey::IsAdmin) {
                Err(e) => Err(e),
                Ok(is_admin) => match flag_field(s, ProfileKey::Sync15) {
                    Err(e) => Err(e),
                    Ok(sync15) => if is_email(email) {
                        Ok(ProfileFields { email, password, is_admin, sync15 })
                    } else {
                        Err(UserProfileError::EMailError(EMailError::EmailInvalid))
                    },
                },
            },
        },
    }
}

/// A field of a YAML document, as read.
pub enum YamlField {
    Missing,
    Text(String),
    Flag(bool),
    Other,
}

/// A read field as plain values.
pub open spec fn field_view(r: Option<YamlField>) -> Option<FieldValue> {
    match r {
        None => None,
        Some(YamlField::Missing) => Some(FieldValue::Missing),
        Some(YamlField::Text(t)) => Some(FieldValue::Text(t@)),
        Some(YamlField::Flag(b)) => Some(FieldValue::Flag(b)),
        Some(YamlField::Other) => Some(FieldValue::Other),
    }
}

/// Relies on `serde_yaml::from_str` into a `serde_yaml::Value` and on
/// `Value::get`: what the document's top-level mapping holds under `key` (a
/// string, a boolean, anything else, or nothing), which depends on the text
/// and the key alone; `None` where the text is not a YAML document.
#[verifier::external_body]
fn read_yaml_field(text: &str, key: &str) -> (r: Option<YamlField>)
    ensures
        field_view(r) == yaml_field(text@, key@),
{
    match serde_yaml::from_str::<serde_yaml::Value>(text) {
        Err(_) => None,
        Ok(v) => Some(match v.get(key) {
            None => YamlField::Missing,
            Some(serde_yaml::Value::String(t)) => YamlField::Text(t.clone()),
            Some(serde_yaml::Value::Bool(b)) => YamlField::Flag(*b),
            Some(_) => YamlField::Other,
        }),
    }
}

/// The key as it is written, as a literal.
fn key_str(k: ProfileKey) -> (r: &'static str)
    ensures
        r@ == key_text(k),
{
    match k {
        ProfileKey::Email => "email",
        ProfileKey::Password => "password",
        ProfileKey::IsAdmin => "is_admin",
        ProfileKey::Sync15 => "sync15",
    }
}

fn text_value(text: &str, k: ProfileKey) -> (r: Result<String, UserProfileError>)
    ensures
        r matches Ok(t) ==> text_field(text@, k) == Ok::<Seq<char>, UserProfileError>(t@),
        r matches Err(e) ==> text_field(text@, k) == Err::<Seq<char>, UserProfileError>(e),
{
    match read_yaml_field(text, key_str(k)) {
        None => Err(UserProfileError::YamlError),
        Some(YamlField::Missing) => Err(UserProfileError::MissingKey(k)),
        Some(YamlField::Text(t)) => Ok(t),
        Some(_) => Err(UserProfileError::InvalidType(k)),
    }
}

fn flag_value(text: &str, k: ProfileKey) -> (r: Result<bool, UserProfileError>)
    ensures
        r == flag_field(text@, k),
{
    match read_yaml_field(text, key_str(k)) {
        None => Err(UserProfileError::YamlError),
        Some(YamlField::Missing) => Err(UserProfileError::MissingKey(k)),
        Some(YamlField::Flag(b)) => Ok(b),
        Some(_) => Err(UserProfileError::InvalidType(k)),
    }
}

/// The literal text of a flag.
fn bool_str(b: bool) -> (r: &'static str)
    ensures
        r@ == bool_text(b),
{
    if b {
        proof {
            reveal_strlit("true");
        }
        assert("true"@ =~= true_text());
        "true"
    } else {
        proof {
            reveal_strlit("false");
        }
        assert("false"@ =~= false_text());
        "false"
    }
}

/// No character of `v` is a newline.
pub open spec fn no_newline(v: Seq<char>) -> bool {
    forall|i: int| 0 <= i < v.len() ==> v[i] != '\n'
}

/// A user record.
#[derive(Debug)]
pub struct UserProfile {
    pub email: EMail,
    pub password: String,
    pub is_admin: bool,
    pub sync15: bool,
}

/// A user record kept in a local file.
pub trait UserLocalFile {

}

impl UserLocalFile for UserProfile {

}

impl UserProfile {
    /// The record's fields as plain values.
    pub open spec fn fields(&self) -> ProfileFields {
        ProfileFields {
            email: self.email@,
            password: self.password@,
            is_admin: self.is_admin,
            sync15: self.sync15,
        }
    }

    /// The profile document of this record.
    pub fn to_yaml(&self) -> (r: String)
        ensures
            r@ == profile_text(self.email@, self.password@, self.is_admin, self.sync15),
    {
        proof {
            reveal_strlit("email");
            reveal_strlit("password");
            reveal_strlit("is_admin");
            reveal_strlit("sync15");
            reveal_strlit("email: ");
            reveal_strlit("\npassword: ");
            reveal_strlit("\nis_admin: ");
            reveal_strlit("\nsync15: ");
        }
        let mut out = String::from_str("email: ");
        out.append(self.email.as_str());
        out.append("\npassword: ");
        out.append(self.password.as_str());
        out.append("\nis_admin: ");
        out.append(bool_str(self.is_admin));
        out.append("\nsync15: ");
        out.append(bool_str(self.sync15));
        assert(out@ =~= profile_text(self.email@, self.password@, self.is_admin, self.sync15));
        out
    }

    /// Reads a profile document as YAML: each of the four keys must be
    /// present, the address and the password must be text, the flags must be
    /// booleans, and the address must match the grammar.
    pub fn from_yaml(text: &str) -> (r: Result<UserProfile, UserProfileError>)
        ensures
            r matches Ok(p) ==> parse_profile(text@) == Ok::<ProfileFields, UserProfileError>(
                p.fields(),
            ),
            r matches Err(e) ==> parse_profile(text@) == Err::<ProfileFields, UserProfileError>(e),
    {
        let email = text_value(text, ProfileKey::Email)?;
        let password = text_value(text, ProfileKey::Password)?;
        let is_admin = flag_value(text, ProfileKey::IsAdmin)?;
        let sync15 = flag_value(text, ProfileKey::Sync15)?;
        let email = match EMail::create(email.as_str()) {
            Err(e) => {
                return Err(UserProfileError::EMailError(e));
            },
            Ok(e) => e,
        };
        Ok(UserProfile { email, password, is_admin, sync15 })
    }

    pub fn new(email: EMail, password: String, is_admin: bool, sync15: bool) -> (r: UserProfile)
        ensures
            r.email@ == email@,
            r.password@ == password@,
            r.is_admin == is_admin,
            r.sync15 == sync15,
    {
        UserProfile { email, password, is_admin, sync15 }
    }
}

} // verus!
