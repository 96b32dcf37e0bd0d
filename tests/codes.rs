use rmcloud::{
    code_of_draws, generate_code, validation_report, CodeLocalStorage, EMail, LocalStorageError,
    ValidationReport, CODE_LIFETIME,
};

fn email(text: &str) -> EMail {
    EMail::create(text).unwrap()
}

fn is_code(c: &str) -> bool {
    c.chars().count() == 8 && c.chars().all(|ch| ch.is_ascii_uppercase())
}

#[test]
fn generated_codes_are_eight_uppercase_letters() {
    for _ in 0..50 {
        assert!(is_code(&generate_code()));
    }
}

#[test]
fn successive_codes_differ() {
    let a = generate_code();
    let b = generate_code();
    assert_ne!(a, b);
}

#[test]
fn codes_cover_whole_alphabet() {
    let mut seen = [false; 26];
    for _ in 0..400 {
        for ch in generate_code().chars() {
            seen[(ch as u8 - b'A') as usize] = true;
        }
    }
    assert!(seen.iter().all(|s| *s));
}

#[test]
fn code_from_draws() {
    assert_eq!(code_of_draws(&vec![0, 1, 2, 25, 24, 7, 0, 13]), "ABCZYHAN");
    assert_eq!(code_of_draws(&vec![]), "");
}

#[test]
fn create_code_issues_valid_code() {
    let mut store = CodeLocalStorage::new();
    let e = email("a@b.co");
    let code = store.create_code(&e);
    assert!(is_code(&code));
    assert!(store.validate_code(&e, &code).is_ok());
}

#[test]
fn issued_code_valid_then_expired() {
    let mut store = CodeLocalStorage::new();
    let e = email("a@b.co");
    let t0: i64 = 1_700_000_000;
    store.issue_code(&e, "ABCDEFGH", t0);
    assert_eq!(store.validate_code_at(&e, "ABCDEFGH", t0), Ok(()));
    assert_eq!(store.validate_code_at(&e, "ABCDEFGH", t0 + CODE_LIFETIME), Ok(()));
    assert_eq!(store.validate_code_at(&e, "ABCDEFGH", t0 + CODE_LIFETIME + 1), Err(LocalStorageError::CodeExpired));
    assert_eq!(store.validate_code_at(&e, "ABCDEFGH", t0 + 100 * CODE_LIFETIME), Err(LocalStorageError::CodeExpired));
}

#[test]
fn validate_errors() {
    let mut store = CodeLocalStorage::new();
    let e = email("a@b.co");
    assert_eq!(store.validate_code_at(&e, "ABCDEFGH", 0), Err(LocalStorageError::UserNotFound));
    store.issue_code(&e, "ABCDEFGH", 0);
    assert_eq!(store.validate_code_at(&e, "ABCDEFGX", 0), Err(LocalStorageError::CodeNotValid));
    assert_eq!(store.validate_code_at(&email("c@d.ef"), "ABCDEFGH", 0), Err(LocalStorageError::UserNotFound));
}

#[test]
fn validate_does_not_consume() {
    let mut store = CodeLocalStorage::new();
    let e = email("a@b.co");
    store.issue_code(&e, "ABCDEFGH", 10);
    assert!(store.validate_code_at(&e, "ABCDEFGH", 10).is_ok());
    assert!(store.validate_code_at(&e, "ABCDEFGH", 11).is_ok());
}

#[test]
fn first_matching_entry_decides() {
    let mut store = CodeLocalStorage::new();
    let e = email("a@b.co");
    store.issue_code(&e, "SAMESAME", 0);
    store.issue_code(&e, "SAMESAME", 20_000);
    // The older entry expired at 10800 and is found first.
    assert_eq!(store.validate_code_at(&e, "SAMESAME", 15_000), Err(LocalStorageError::CodeExpired));
}

#[test]
fn expiry_saturates_at_the_last_instant() {
    let mut store = CodeLocalStorage::new();
    let e = email("a@b.co");
    store.issue_code(&e, "ABCDEFGH", i64::MAX - 5);
    assert_eq!(store.validate_code_at(&e, "ABCDEFGH", i64::MAX), Ok(()));
}

#[test]
fn clean_drops_expired_and_empty_lists() {
    let mut store = CodeLocalStorage::new();
    let a = email("a@b.co");
    let b = email("c@d.ef");
    store.issue_code(&a, "OLDOLDOL", 0);
    store.issue_code(&a, "NEWNEWNE", 10_000);
    store.issue_code(&b, "BBBBBBBB", 0);
    store.clean_codes_at(CODE_LIFETIME + 1);
    assert_eq!(store.validate_code_at(&a, "OLDOLDOL", 0), Err(LocalStorageError::CodeNotValid));
    assert_eq!(store.validate_code_at(&a, "NEWNEWNE", CODE_LIFETIME + 1), Ok(()));
    assert_eq!(store.validate_code_at(&b, "BBBBBBBB", 0), Err(LocalStorageError::UserNotFound));
}

#[test]
fn clean_keeps_code_expiring_now() {
    let mut store = CodeLocalStorage::new();
    let a = email("a@b.co");
    store.issue_code(&a, "EDGEEDGE", 0);
    store.clean_codes_at(CODE_LIFETIME);
    assert_eq!(store.validate_code_at(&a, "EDGEEDGE", CODE_LIFETIME), Ok(()));
}

#[test]
fn expired_code_gone_after_clean() {
    let mut store = CodeLocalStorage::new();
    let a = email("a@b.co");
    let t0: i64 = 1_000;
    store.issue_code(&a, "QWERTYUI", t0);
    let later = t0 + 3 * 3600 + 1;
    assert_eq!(store.validate_code_at(&a, "QWERTYUI", later), Err(LocalStorageError::CodeExpired));
    store.clean_codes_at(later);
    assert_eq!(store.validate_code_at(&a, "QWERTYUI", t0), Err(LocalStorageError::UserNotFound));
}

#[test]
fn remove_code_drops_all_copies() {
    let mut store = CodeLocalStorage::new();
    let a = email("a@b.co");
    store.issue_code(&a, "KEEPKEEP", 0);
    store.issue_code(&a, "DROPDROP", 0);
    store.issue_code(&a, "DROPDROP", 5);
    store.remove_code(&a, "DROPDROP");
    assert_eq!(store.validate_code_at(&a, "DROPDROP", 0), Err(LocalStorageError::CodeNotValid));
    assert_eq!(store.validate_code_at(&a, "KEEPKEEP", 0), Ok(()));
    store.remove_code(&a, "KEEPKEEP");
    assert_eq!(store.validate_code_at(&a, "KEEPKEEP", 0), Err(LocalStorageError::UserNotFound));
    store.remove_code(&email("x@y.zz"), "KEEPKEEP");
    assert_eq!(store.validate_code_at(&email("x@y.zz"), "KEEPKEEP", 0), Err(LocalStorageError::UserNotFound));
}

#[test]
fn issue_does_not_touch_other_addresses() {
    let mut store = CodeLocalStorage::new();
    let a = email("a@b.co");
    let b = email("c@d.ef");
    store.issue_code(&a, "AAAAAAAA", 0);
    store.issue_code(&b, "BBBBBBBB", 0);
    assert_eq!(store.validate_code_at(&a, "BBBBBBBB", 0), Err(LocalStorageError::CodeNotValid));
    assert_eq!(store.validate_code_at(&b, "AAAAAAAA", 0), Err(LocalStorageError::CodeNotValid));
}

#[test]
fn validation_reports() {
    assert_eq!(validation_report(Ok(())), Ok(ValidationReport::Valid));
    assert_eq!(validation_report(Err(LocalStorageError::CodeExpired)), Ok(ValidationReport::Expired));
    assert_eq!(validation_report(Err(LocalStorageError::CodeNotValid)), Ok(ValidationReport::NotValid));
    assert_eq!(validation_report(Err(LocalStorageError::UserNotFound)), Err(LocalStorageError::UserNotFound));
    assert_eq!(ValidationReport::Expired.message(), "Code is already expired.");
    assert_eq!(ValidationReport::NotValid.message(), "Code is not valid.");
    assert_eq!(ValidationReport::Valid.message(), "Code is valid.");
}
