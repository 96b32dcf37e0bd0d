use rmcloud::{EMail, EMailError, ProfileKey, UserProfile, UserProfileError};

fn user(email: &str, password: &str, is_admin: bool, sync15: bool) -> UserProfile {
    UserProfile::new(EMail::create(email).unwrap(), password.to_string(), is_admin, sync15)
}

#[test]
fn profile_document_text() {
    let u = user("a@b.co", "pw", false, true);
    assert_eq!(u.to_yaml(), "email: a@b.co\npassword: pw\nis_admin: false\nsync15: true");
}

#[test]
fn profile_round_trip_all_flags() {
    for (a, s) in [(false, false), (false, true), (true, false), (true, true)] {
        for pw in ["pw", "secret pw", "p@ss-w0rd!", "with:colon", "x y z"] {
            let u = user("a@b.co", pw, a, s);
            let back = UserProfile::from_yaml(&u.to_yaml()).unwrap();
            assert_eq!(back.email.as_str(), "a@b.co");
            assert_eq!(back.password, pw);
            assert_eq!(back.is_admin, a);
            assert_eq!(back.sync15, s);
        }
    }
}

#[test]
fn profile_missing_keys() {
    assert!(matches!(
        UserProfile::from_yaml("password: x\nis_admin: true\nsync15: true"),
        Err(UserProfileError::MissingKey(ProfileKey::Email))
    ));
    assert!(matches!(
        UserProfile::from_yaml("email: a@b.co\nis_admin: true\nsync15: true"),
        Err(UserProfileError::MissingKey(ProfileKey::Password))
    ));
    assert!(matches!(
        UserProfile::from_yaml("email: a@b.co\npassword: x\nsync15: true"),
        Err(UserProfileError::MissingKey(ProfileKey::IsAdmin))
    ));
    assert!(matches!(
        UserProfile::from_yaml("email: a@b.co\npassword: x\nis_admin: true"),
        Err(UserProfileError::MissingKey(ProfileKey::Sync15))
    ));
}

#[test]
fn profile_wrong_types() {
    assert!(matches!(
        UserProfile::from_yaml("email: a@b.co\npassword: x\nis_admin: yes\nsync15: true"),
        Err(UserProfileError::InvalidType(ProfileKey::IsAdmin))
    ));
    assert!(matches!(
        UserProfile::from_yaml("email: a@b.co\npassword: x\nis_admin: true\nsync15: 1"),
        Err(UserProfileError::InvalidType(ProfileKey::Sync15))
    ));
}

#[test]
fn profile_invalid_email() {
    assert!(matches!(
        UserProfile::from_yaml("email: A@b.co\npassword: x\nis_admin: true\nsync15: true"),
        Err(UserProfileError::EMailError(EMailError::EmailInvalid))
    ));
}

#[test]
fn profile_keys_in_any_order() {
    let u = UserProfile::from_yaml("sync15: false\nis_admin: true\npassword: p\nemail: q@r.st\n").unwrap();
    assert_eq!(u.email.as_str(), "q@r.st");
    assert_eq!(u.password, "p");
    assert!(u.is_admin);
    assert!(!u.sync15);
}

#[test]
fn profile_values_are_read_as_yaml() {
    let u = user("a@b.co", "123", false, false);
    assert!(matches!(
        UserProfile::from_yaml(&u.to_yaml()),
        Err(UserProfileError::InvalidType(ProfileKey::Password))
    ));
    let quoted = UserProfile::from_yaml("email: 'a@b.co'\npassword: \"123\"\nis_admin: true\nsync15: false # comment").unwrap();
    assert_eq!(quoted.email.as_str(), "a@b.co");
    assert_eq!(quoted.password, "123");
    assert!(quoted.is_admin && !quoted.sync15);
}

#[test]
fn profile_not_yaml() {
    assert!(matches!(UserProfile::from_yaml("email: [unclosed"), Err(UserProfileError::YamlError)));
}
