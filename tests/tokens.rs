use rmcloud::{CodeStorage, UserStorage};
use rmcloud::{
    check_login, create_jwt_from_userprofile, login_user, decimal_text, find_claim, mint_token, parse_i64,
    refresh_decision, scopes_text, token_claims, verify_and_get_claims, AuthError,
    CodeLocalStorage, EMail, RefreshAction, TokenError, UserLocalStorage, UserProfile,
    TOKEN_LIFETIME,
};

fn user(email: &str, sync15: bool) -> UserProfile {
    UserProfile::new(EMail::create(email).unwrap(), "pw".to_string(), false, sync15)
}

fn claim(claims: &Vec<(String, String)>, key: &str) -> Option<String> {
    find_claim(claims, key)
}

fn has_scope(claims: &Vec<(String, String)>, scope: &str) -> bool {
    claim(claims, "Scopes").unwrap().split(' ').any(|s| s == scope)
}

#[test]
fn scopes_without_and_with_sync15() {
    assert_eq!(scopes_text(false), "intgr screenshare hwcmail:-1 mail:-1");
    assert_eq!(scopes_text(true), "intgr screenshare hwcmail:-1 mail:-1 sync15");
}

#[test]
fn claim_set_contents() {
    let u = user("a@b.co", true);
    let c = token_claims(&u, "id-1", 1_700_086_400);
    let keys: Vec<&str> = c.iter().map(|(k, _)| k.as_str()).collect();
    assert_eq!(
        keys,
        vec!["Audience", "BrowserID", "CreatedAt", "Email", "ExpiresAt", "Issuer", "Scopes", "UpdatedAt", "UserID"]
    );
    assert_eq!(claim(&c, "UserID").unwrap(), "a@b.co");
    assert_eq!(claim(&c, "Email").unwrap(), "a@b.co");
    assert_eq!(claim(&c, "BrowserID").unwrap(), "id-1");
    assert_eq!(claim(&c, "ExpiresAt").unwrap(), "1700086400");
    assert_eq!(claim(&c, "CreatedAt").unwrap(), "1700086400");
    assert_eq!(claim(&c, "UpdatedAt").unwrap(), "1700086400");
    assert_eq!(claim(&c, "Issuer").unwrap(), "rmCloud WEB");
    assert_eq!(claim(&c, "Audience").unwrap(), "web");
    assert!(claim(&c, "Missing").is_none());
}

#[test]
fn mint_then_verify() {
    for sync15 in [false, true] {
        let u = user("a@b.co", sync15);
        let token = create_jwt_from_userprofile("k3y", &u);
        assert_eq!(token.split('.').count(), 3);
        let claims = verify_and_get_claims(&token, "k3y").unwrap();
        assert_eq!(claim(&claims, "UserID").unwrap(), "a@b.co");
        assert_eq!(has_scope(&claims, "sync15"), sync15);
        assert!(has_scope(&claims, "intgr"));
        let id = claim(&claims, "BrowserID").unwrap();
        assert_eq!(id.len(), 36);
        assert_eq!(id.as_bytes()[14], b'4');
        assert_eq!(id.as_bytes()[8], b'-');
    }
}

#[test]
fn verify_with_other_key_is_signature_error() {
    let u = user("a@b.co", false);
    let token = create_jwt_from_userprofile("right", &u);
    assert_eq!(verify_and_get_claims(&token, "wrong").unwrap_err(), TokenError::SignatureError);
}

#[test]
fn verify_garbage_is_decode_error() {
    assert_eq!(verify_and_get_claims("not a token", "k").unwrap_err(), TokenError::DecodeError);
    assert_eq!(verify_and_get_claims("a.b.c", "k").unwrap_err(), TokenError::DecodeError);
}

#[test]
fn minted_token_is_deterministic_for_fixed_inputs() {
    let u = user("a@b.co", false);
    let t1 = mint_token("k", &u, "id", 1000);
    let t2 = mint_token("k", &u, "id", 1000);
    assert_eq!(t1, t2);
    let claims = verify_and_get_claims(&t1, "k").unwrap();
    assert_eq!(claim(&claims, "ExpiresAt").unwrap(), (1000 + TOKEN_LIFETIME).to_string());
}

fn login_scenario(sync15: bool) {
    let users = UserLocalStorage::create("/data");
    let mut codes = CodeLocalStorage::new();
    let e = EMail::create("a@b.co").unwrap();
    let record = users.create_user(&e, "pw", false, sync15, false).unwrap();
    let stored = record.to_yaml();
    let code = codes.create_code(&e);
    let who = check_login(&codes, "a@b.co", &code, current_time()).unwrap();
    assert_eq!(who.as_str(), "a@b.co");
    let profile = login_user(&codes, "a@b.co", &code, current_time(), Some(&stored)).unwrap();
    assert_eq!(profile.email.as_str(), "a@b.co");
    let jwt = create_jwt_from_userprofile("secret", &profile);
    let claims = verify_and_get_claims(&jwt, "secret").unwrap();
    assert_eq!(claim(&claims, "UserID").unwrap(), "a@b.co");
    assert_eq!(has_scope(&claims, "sync15"), sync15);
}

fn current_time() -> i64 {
    std::time::SystemTime::now().duration_since(std::time::UNIX_EPOCH).unwrap().as_secs() as i64
}

#[test]
fn login_without_sync15() {
    login_scenario(false);
}

#[test]
fn login_with_sync15() {
    login_scenario(true);
}

#[test]
fn login_failures_are_unauthorized() {
    let mut codes = CodeLocalStorage::new();
    let e = EMail::create("a@b.co").unwrap();
    codes.issue_code(&e, "ABCDEFGH", 100);
    assert_eq!(check_login(&codes, "a@b.co", "WRONGCOD", 100).unwrap_err(), AuthError::Unauthorized);
    assert_eq!(check_login(&codes, "x@y.zz", "ABCDEFGH", 100).unwrap_err(), AuthError::Unauthorized);
    assert_eq!(check_login(&codes, "not an email", "ABCDEFGH", 100).unwrap_err(), AuthError::Unauthorized);
    assert_eq!(check_login(&codes, "a@b.co", "ABCDEFGH", 100).unwrap().as_str(), "a@b.co");
}

#[test]
fn login_after_expiry_is_unauthorized() {
    let mut codes = CodeLocalStorage::new();
    let e = EMail::create("a@b.co").unwrap();
    codes.issue_code(&e, "ABCDEFGH", 100);
    let later = 100 + 3 * 3600 + 1;
    assert_eq!(check_login(&codes, "a@b.co", "ABCDEFGH", later).unwrap_err(), AuthError::Unauthorized);
    codes.clean_codes_at(later);
    assert!(check_login(&codes, "a@b.co", "ABCDEFGH", 100).is_err());
}

#[test]
fn refresh_expired_token_renews() {
    let u = user("a@b.co", false);
    let now = 2_000_000_i64;
    let minted_at = now - TOKEN_LIFETIME - 1;
    let jwt = mint_token("k", &u, "id", minted_at);
    let claims = verify_and_get_claims(&jwt, "k").unwrap();
    assert_eq!(claim(&claims, "ExpiresAt").unwrap(), (now - 1).to_string());
    match refresh_decision(&claims, now).unwrap() {
        RefreshAction::Renew(e) => {
            assert_eq!(e.as_str(), "a@b.co");
            let renewed = mint_token("k", &u, "id2", now);
            let c2 = verify_and_get_claims(&renewed, "k").unwrap();
            let exp: i64 = claim(&c2, "ExpiresAt").unwrap().parse().unwrap();
            assert!(exp > now);
        }
        RefreshAction::Echo => panic!("expired token echoed"),
    }
}

#[test]
fn refresh_fresh_token_echoes() {
    let u = user("a@b.co", false);
    let now = 2_000_000_i64;
    let jwt = mint_token("k", &u, "id", now);
    let claims = verify_and_get_claims(&jwt, "k").unwrap();
    assert!(matches!(refresh_decision(&claims, now).unwrap(), RefreshAction::Echo));
    assert!(matches!(refresh_decision(&claims, now + TOKEN_LIFETIME).unwrap(), RefreshAction::Echo));
}

#[test]
fn refresh_rejects_bad_claims() {
    let c = vec![("ExpiresAt".to_string(), "10".to_string())];
    assert_eq!(refresh_decision(&c, 0).unwrap_err(), AuthError::Unauthorized);
    let c = vec![("UserID".to_string(), "A@b.co".to_string()), ("ExpiresAt".to_string(), "10".to_string())];
    assert_eq!(refresh_decision(&c, 0).unwrap_err(), AuthError::Unauthorized);
    let c = vec![("UserID".to_string(), "a@b.co".to_string())];
    assert_eq!(refresh_decision(&c, 0).unwrap_err(), AuthError::Unauthorized);
    let c = vec![("UserID".to_string(), "a@b.co".to_string()), ("ExpiresAt".to_string(), "soon".to_string())];
    assert_eq!(refresh_decision(&c, 0).unwrap_err(), AuthError::Unauthorized);
}

#[test]
fn decimal_text_values() {
    assert_eq!(decimal_text(0), "0");
    assert_eq!(decimal_text(7), "7");
    assert_eq!(decimal_text(1_700_086_400), "1700086400");
    assert_eq!(decimal_text(-42), "-42");
    assert_eq!(decimal_text(i64::MAX), i64::MAX.to_string());
    assert_eq!(decimal_text(i64::MIN), i64::MIN.to_string());
}

#[test]
fn parse_i64_values() {
    assert_eq!(parse_i64("0"), Some(0));
    assert_eq!(parse_i64("+15"), Some(15));
    assert_eq!(parse_i64("-15"), Some(-15));
    assert_eq!(parse_i64("007"), Some(7));
    assert_eq!(parse_i64("9223372036854775807"), Some(i64::MAX));
    assert_eq!(parse_i64("-9223372036854775808"), Some(i64::MIN));
    assert_eq!(parse_i64("9223372036854775808"), None);
    assert_eq!(parse_i64("-9223372036854775809"), None);
    assert_eq!(parse_i64("99999999999999999999999999"), None);
    assert_eq!(parse_i64(""), None);
    assert_eq!(parse_i64("-"), None);
    assert_eq!(parse_i64("+"), None);
    assert_eq!(parse_i64("1 "), None);
    assert_eq!(parse_i64("12a"), None);
    assert_eq!(parse_i64("--1"), None);
}

#[test]
fn decimal_round_trip_values() {
    for n in [0, 1, -1, 10, 99, 100, 12345, i64::MAX, i64::MIN, -1_000_000] {
        assert_eq!(parse_i64(&decimal_text(n)), Some(n));
    }
}

#[test]
fn login_needs_a_user_record() {
    let mut codes = CodeLocalStorage::new();
    let e = EMail::create("a@b.co").unwrap();
    codes.issue_code(&e, "ABCDEFGH", 100);
    assert_eq!(login_user(&codes, "a@b.co", "ABCDEFGH", 100, None).unwrap_err(), AuthError::Unauthorized);
    assert_eq!(login_user(&codes, "a@b.co", "ABCDEFGH", 100, Some("broken")).unwrap_err(), AuthError::Unauthorized);
    let doc = "email: a@b.co\npassword: pw\nis_admin: false\nsync15: true";
    let u = login_user(&codes, "a@b.co", "ABCDEFGH", 100, Some(doc)).unwrap();
    assert!(u.sync15);
    assert_eq!(login_user(&codes, "a@b.co", "WRONGONE", 100, Some(doc)).unwrap_err(), AuthError::Unauthorized);
}

#[test]
fn stores_through_their_interfaces() {
    let mut codes = CodeLocalStorage::new();
    let e = EMail::create("a@b.co").unwrap();
    let code = CodeStorage::create_code(&mut codes, &e);
    assert!(CodeStorage::validate_code(&codes, &e, &code).is_ok());
    CodeStorage::remove_code(&mut codes, &e, &code);
    assert!(CodeStorage::validate_code(&codes, &e, &code).is_err());
    CodeStorage::clean_codes(&mut codes);
    let users = UserLocalStorage::create("/data");
    let u = UserStorage::create_user(&users, &e, "pw", false, true, false).unwrap();
    assert!(UserStorage::get_user(&users, &e, Some(&u.to_yaml())).unwrap().sync15);
    assert!(UserStorage::edit_user(&users, &e, "pw", false, true, false).is_err());
    assert!(UserStorage::delete_user(&users, &e, true).is_ok());
}
