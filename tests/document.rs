use rmcloud::{CodeLocalStorage, EMail, LocalStorageError};

fn email(text: &str) -> EMail {
    EMail::create(text).unwrap()
}

#[test]
fn document_round_trip() {
    let mut store = CodeLocalStorage::new();
    store.issue_code(&email("a@b.co"), "ABCDEFGH", 1_700_000_000 - 10_800);
    store.issue_code(&email("a@b.co"), "IJKLMNOP", 1_700_000_000);
    store.issue_code(&email("c@d.ef"), "QRSTUVWX", 0);
    let text = store.store_codes().unwrap();
    assert!(text.contains("2023-11-14T22:13:20Z"));
    assert!(text.contains("ABCDEFGH"));
    let back = CodeLocalStorage::load_codes(&text).unwrap();
    assert_eq!(back.validate_code_at(&email("a@b.co"), "ABCDEFGH", 1_700_000_000), Ok(()));
    assert_eq!(back.validate_code_at(&email("a@b.co"), "ABCDEFGH", 1_700_000_001), Err(LocalStorageError::CodeExpired));
    assert_eq!(back.validate_code_at(&email("a@b.co"), "IJKLMNOP", 1_700_010_800), Ok(()));
    assert_eq!(back.validate_code_at(&email("c@d.ef"), "QRSTUVWX", 10_800), Ok(()));
    assert_eq!(back.validate_code_at(&email("c@d.ef"), "QRSTUVWX", 10_801), Err(LocalStorageError::CodeExpired));
    assert_eq!(back.store_codes().unwrap(), text);
}

#[test]
fn empty_store_document() {
    let store = CodeLocalStorage::new();
    let text = store.store_codes().unwrap();
    let back = CodeLocalStorage::load_codes(&text).unwrap();
    assert_eq!(back.validate_code_at(&email("a@b.co"), "ABCDEFGH", 0), Err(LocalStorageError::UserNotFound));
}

#[test]
fn malformed_documents_are_refused() {
    assert_eq!(CodeLocalStorage::load_codes("a@b.co: [unclosed").unwrap_err(), LocalStorageError::YamlError);
    assert_eq!(CodeLocalStorage::load_codes("just text").unwrap_err(), LocalStorageError::YamlError);
    assert_eq!(CodeLocalStorage::load_codes("a@b.co: []\n").unwrap_err(), LocalStorageError::YamlError);
    assert_eq!(
        CodeLocalStorage::load_codes("a@b.co:\n- - ABCDEFGH\n  - not a time\n").unwrap_err(),
        LocalStorageError::YamlError
    );
}

#[test]
fn hand_written_document_loads() {
    let text = "a@b.co:\n- - ABCDEFGH\n  - 1970-01-01T03:00:00Z\n";
    let store = CodeLocalStorage::load_codes(text).unwrap();
    assert_eq!(store.validate_code_at(&email("a@b.co"), "ABCDEFGH", 10_800), Ok(()));
    assert_eq!(store.validate_code_at(&email("a@b.co"), "ABCDEFGH", 10_801), Err(LocalStorageError::CodeExpired));
}

#[test]
fn cleaned_code_leaves_the_document() {
    let mut store = CodeLocalStorage::new();
    store.issue_code(&email("a@b.co"), "GONEGONE", 1_000);
    store.issue_code(&email("c@d.ef"), "STAYSTAY", 20_000);
    store.clean_codes_at(1_000 + 3 * 3600 + 1);
    let text = store.store_codes().unwrap();
    assert!(!text.contains("GONEGONE"));
    assert!(!text.contains("a@b.co"));
    assert!(text.contains("STAYSTAY"));
}

#[test]
fn document_lists_addresses_in_order() {
    let mut store = CodeLocalStorage::new();
    store.issue_code(&email("zz@b.co"), "ZZZZZZZZ", 0);
    store.issue_code(&email("aa@b.co"), "AAAAAAAA", 0);
    store.issue_code(&email("mm@b.co"), "MMMMMMMM", 0);
    let text = store.store_codes().unwrap();
    let a = text.find("aa@b.co").unwrap();
    let m = text.find("mm@b.co").unwrap();
    let z = text.find("zz@b.co").unwrap();
    assert!(a < m && m < z);
    let back = CodeLocalStorage::load_codes(&text).unwrap();
    assert_eq!(back.store_codes().unwrap(), text);
}

#[test]
fn expiry_without_text_is_refused() {
    let mut store = CodeLocalStorage::new();
    store.issue_code(&email("a@b.co"), "ABCDEFGH", i64::MAX - 5);
    assert_eq!(store.store_codes().unwrap_err(), LocalStorageError::YamlError);
}

#[test]
fn out_of_order_document_is_refused() {
    let text = "b@b.co:\n- - ABCDEFGH\n  - 1970-01-01T03:00:00Z\na@b.co:\n- - ABCDEFGH\n  - 1970-01-01T03:00:00Z\n";
    // serde_yaml reads a mapping into key order, so this still loads.
    assert!(CodeLocalStorage::load_codes(text).is_ok());
}
