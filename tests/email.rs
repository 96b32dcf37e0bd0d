use rmcloud::{validate_email, EMail, EMailError};

#[test]
fn valid_address_round_trips() {
    for text in ["a@b.co", "first.last+tag@mail-server.example.org", "x_1@a1.b2.museum", "9@0.io"] {
        let e = EMail::create(text).unwrap();
        assert_eq!(e.as_str(), text);
    }
}

#[test]
fn missing_at_is_rejected() {
    assert!(matches!(EMail::create("ab.co"), Err(EMailError::EmailInvalid)));
}

#[test]
fn empty_local_part_is_rejected() {
    assert!(matches!(EMail::create("@b.co"), Err(EMailError::EmailInvalid)));
}

#[test]
fn uppercase_is_rejected() {
    assert!(EMail::create("A@b.co").is_err());
    assert!(EMail::create("a@B.co").is_err());
    assert!(EMail::create("a@b.CO").is_err());
    assert!(EMail::create("a@b.coM").is_err());
}

#[test]
fn trailing_space_is_rejected() {
    assert!(EMail::create("a@b.co ").is_err());
    assert!(EMail::create(" a@b.co").is_err());
}

#[test]
fn unicode_is_rejected() {
    assert!(EMail::create("ä@b.co").is_err());
    assert!(EMail::create("a@b.coé").is_err());
    assert!(EMail::create("a@bü.co").is_err());
}

#[test]
fn grammar_edges() {
    assert!(!validate_email(""));
    assert!(!validate_email("a.@b.co"));
    assert!(!validate_email(".a@b.co"));
    assert!(validate_email("a..b@b.co"));
    assert!(!validate_email("a@b.c"));
    assert!(validate_email("a@b.cdefgh"));
    assert!(!validate_email("a@b.cdefghi"));
    assert!(!validate_email("a@b..co"));
    assert!(!validate_email("a@-b.co"));
    assert!(!validate_email("a@b-.co"));
    assert!(validate_email("a@b-c.co"));
    assert!(!validate_email("a@b.c0"));
    assert!(!validate_email("a@b@c.co"));
    assert!(!validate_email("a@.co"));
    assert!(validate_email("a@b.co.uk"));
}
