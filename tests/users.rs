use rmcloud::{get_user_folder, get_user_profile, EMail, LocalStorageError, UserLocalStorage};

#[test]
fn user_paths() {
    let e = EMail::create("a@b.co").unwrap();
    assert_eq!(get_user_folder("/data", &e), "/data/a@b.co");
    assert_eq!(get_user_folder("/data/", &e), "/data/a@b.co");
    assert_eq!(get_user_folder("", &e), "a@b.co");
    assert_eq!(get_user_profile("/data", &e), "/data/a@b.co/.userprofile");
    let store = UserLocalStorage::create("data");
    assert_eq!(store.user_profile(&e), "data/a@b.co/.userprofile");
    assert_eq!(store.user_folder(&e), "data/a@b.co");
    assert_eq!(store.dir(), "data");
}

#[test]
fn create_then_get_then_delete() {
    let store = UserLocalStorage::create("/data");
    let e = EMail::create("a@b.co").unwrap();
    let created = store.create_user(&e, "secret pw", true, false, false).unwrap();
    let doc = created.to_yaml();
    let back = store.get_user(&e, Some(&doc)).unwrap();
    assert_eq!(back.email.as_str(), "a@b.co");
    assert_eq!(back.password, "secret pw");
    assert!(back.is_admin);
    assert!(!back.sync15);
    assert!(store.delete_user(&e, true).is_ok());
    assert!(matches!(store.get_user(&e, None), Err(LocalStorageError::UserNotFound)));
}

#[test]
fn add_same_email_twice() {
    let store = UserLocalStorage::create("/data");
    let e = EMail::create("a@b.co").unwrap();
    let first = store.create_user(&e, "pw", false, false, false).unwrap();
    let doc = first.to_yaml();
    // The profile now exists: a second add is refused and the document stays.
    let second = store.create_user(&e, "other", true, true, true);
    assert!(matches!(second, Err(LocalStorageError::UserAlreadyExists)));
    assert_eq!(doc, "email: a@b.co\npassword: pw\nis_admin: false\nsync15: false");
}

#[test]
fn edit_and_delete_missing_user() {
    let store = UserLocalStorage::create("/data");
    let e = EMail::create("a@b.co").unwrap();
    assert!(matches!(store.edit_user(&e, "pw", false, false, false), Err(LocalStorageError::UserNotFound)));
    assert!(matches!(store.delete_user(&e, false), Err(LocalStorageError::UserNotFound)));
    let edited = store.edit_user(&e, "new", true, true, true).unwrap();
    assert_eq!(edited.password, "new");
    assert!(edited.is_admin && edited.sync15);
}

#[test]
fn get_user_reports_bad_document() {
    let store = UserLocalStorage::create("/data");
    let e = EMail::create("a@b.co").unwrap();
    assert!(matches!(store.get_user(&e, Some("garbage")), Err(LocalStorageError::UserProfileError(_))));
}
