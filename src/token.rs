use vstd::prelude::*;

use hmac::{Hmac, Mac};
use jwt::{SignWithKey, VerifyWithKey};
use sha2::Sha256;
use std::collections::BTreeMap;

use crate::clock::now_unix_seconds;
use crate::decimal::{decimal, decimal_text, lemma_decimal_round_trip, parse_i64, parsed_i64};
use crate::email::{is_email, EMail};
use crate::profile::UserProfile;
use crate::text::text_lt;

verus! {

/// How long a session token is valid: one day, in seconds.
pub const TOKEN_LIFETIME: i64 = 86400;

/// When a token minted at `now` expires: a day later, or at the last
/// representable instant where that is past it.
pub open spec fn token_expiry(now: i64) -> i64 {
    if now <= i64::MAX - TOKEN_LIFETIME {
        (now + TOKEN_LIFETIME) as i64
    } else {
        i64::MAX
    }
}

/// Why a token could not be made or was refused.
#[derive(Debug, Clone, Copy, PartialEq, Eq)]
pub enum TokenError {
    /// The token's signature does not match the secret.
    SignatureError,
    /// The token is not a well-formed signed claim set.
    DecodeError,
}

/// A claim set as plain values.
pub open spec fn pairs_view(c: Seq<(String, String)>) -> Seq<(Seq<char>, Seq<char>)> {
    c.map_values(|p: (String, String)| (p.0@, p.1@))
}

/// The scopes every user has.
pub open spec fn base_scopes() -> Seq<Seq<char>> {
    seq!["intgr"@, "screenshare"@, "hwcmail:-1"@, "mail:-1"@]
}

/// The scopes of a user: the base scopes, and `sync15` for users of that
/// sync protocol.
pub open spec fn scope_list(sync15: bool) -> Seq<Seq<char>> {
    if sync15 {
        base_scopes().push("sync15"@)
    } else {
        base_scopes()
    }
}

/// Words joined by single spaces.
pub open spec fn join_spaced(l: Seq<Seq<char>>) -> Seq<char>
    decreases l.len(),
{
    if l.len() == 0 {
        Seq::empty()
    } else if l.len() == 1 {
        l[0]
    } else {
        join_spaced(l.drop_last()) + seq![' '] + l.last()
    }
}

/// The claim set of a session token, in key order.
pub open spec fn claim_set(email: Seq<char>, browser_id: Seq<char>, sync15: bool, expires: i64) -> Seq<
    (Seq<char>, Seq<char>),
> {
    seq![
        ("Audience"@, "web"@),
        ("BrowserID"@, browser_id),
        ("CreatedAt"@, decimal(expires as int)),
        ("Email"@, email),
        ("ExpiresAt"@, decimal(expires as int)),
        ("Issuer"@, "rmCloud WEB"@),
        ("Scopes"@, join_spaced(scope_list(sync15))),
        ("UpdatedAt"@, decimal(expires as int)),
        ("UserID"@, email),
    ]
}

/// The keys of a claim set strictly increase.
pub open spec fn keys_increasing(c: Seq<(Seq<char>, Seq<char>)>) -> bool {
    forall|i: int| 0 <= i < c.len() - 1 ==> text_lt(#[trigger] c[i].0, c[i + 1].0)
}

/// The value of the first claim at or after position `i` whose key is `key`.
pub open spec fn claim_from(c: Seq<(Seq<char>, Seq<char>)>, key: Seq<char>, i: int) -> Option<
    Seq<char>,
>
    decreases c.len() - i,
{
    if i < 0 || i >= c.len() {
        None
    } else if c[i].0 == key {
        Some(c[i].1)
    } else {
        claim_from(c, key, i + 1)
    }
}

/// The value of the claim `key`.
pub open spec fn claim(c: Seq<(Seq<char>, Seq<char>)>, key: Seq<char>) -> Option<Seq<char>> {
    claim_from(c, key, 0)
}

/// The compact HS256 token that signs `claims` with `secret`.
pub uninterp spec fn hs256_token(secret: Seq<char>, claims: Seq<(Seq<char>, Seq<char>)>) -> Seq<char>;

/// The claims of `token` where it is a well-formed HS256 token signed with
/// `secret`.
pub uninterp spec fn hs256_claims(token: Seq<char>, secret: Seq<char>) -> Option<
    Seq<(Seq<char>, Seq<char>)>,
>;

/// Where `token` is the token that signs, with `secret`, a claim set whose
/// keys strictly increase, the outcome of verifying it is that claim set.
pub open spec fn reads_back(
    r: Result<Vec<(String, String)>, TokenError>,
    token: Seq<char>,
    secret: Seq<char>,
) -> bool {
    forall|c: Seq<(Seq<char>, Seq<char>)>|
        keys_increasing(c) && token == #[trigger] hs256_token(secret, c) ==> (r matches Ok(v)
            && pairs_view(v@) == c)
}

/// Relies on `Mac::new_from_slice` for `Hmac<Sha256>` over the secret's
/// bytes, which accepts a key of any length, and on `jwt::SignWithKey` for a
/// `BTreeMap<String, String>` of the claims, whose header and claims always
/// encode as JSON: a compact token with an HS256 header, which depends on the
/// secret and the claims alone.
#[verifier::external_body]
fn sign_claims(secret: &str, claims: &Vec<(String, String)>) -> (r: String)
    ensures
        r@ == hs256_token(secret@, pairs_view(claims@)),
{
    let key: Hmac<Sha256> = Hmac::new_from_slice(secret.as_bytes()).expect("an HMAC key may have any length");
    let map: BTreeMap<String, String> = claims.iter().cloned().collect();
    map.sign_with_key(&key).expect("a map of strings always encodes")
}

/// Relies on `Mac::new_from_slice` for `Hmac<Sha256>` over the secret's
/// bytes, and on `jwt::VerifyWithKey` from a token into a
/// `BTreeMap<String, String>`: the claims, in key order, where the token is
/// well formed and its signature matches; the outcome depends on the token
/// and the secret alone. A signature that does not match
/// (`jwt::Error::RustCryptoMac`, or `InvalidSignature`) becomes
/// `SignatureError`, any other failure `DecodeError`. A token that
/// `sign_claims` made with the same secret reads back: its claims are parsed
/// from the JSON that the signing wrote, into a map walked in key order, so a
/// claim set whose keys strictly increase comes back unchanged.
#[verifier::external_body]
fn verify_claims(token: &str, secret: &str) -> (r: Result<Vec<(String, String)>, TokenError>)
    ensures
        r is Ok <==> hs256_claims(token@, secret@) is Some,
        r matches Ok(c) ==> hs256_claims(token@, secret@) == Some(pairs_view(c@)),
        reads_back(r, token@, secret@),
{
    let key: Hmac<Sha256> = match Hmac::new_from_slice(secret.as_bytes()) {
        Ok(k) => k,
        Err(_) => return Err(TokenError::DecodeError),
    };
    match VerifyWithKey::<BTreeMap<String, String>>::verify_with_key(token, &key) {
        Ok(m) => Ok(m.into_iter().collect()),
        Err(jwt::Error::RustCryptoMac(_)) => Err(TokenError::SignatureError),
        Err(jwt::Error::InvalidSignature) => Err(TokenError::SignatureError),
        Err(_) => Err(TokenError::DecodeError),
    }
}

/// A version-4 identifier in hyphenated form: 36 characters, hyphens at
/// positions 8, 13, 18 and 23, the version digit `4` at position 14.
pub open spec fn is_v4_text(s: Seq<char>) -> bool {
    &&& s.len() == 36
    &&& s[8] == '-' && s[13] == '-' && s[18] == '-' && s[23] == '-'
    &&& s[14] == '4'
}

/// Relies on `uuid::Uuid::new_v4` and its `Display`, which writes the
/// hyphenated lower-case form: a fresh random version-4 identifier as text.
#[verifier::external_body]
fn new_browser_id() -> (r: String)
    ensures
        is_v4_text(r@),
{
    uuid::Uuid::new_v4().to_string()
}

/// The scopes of a user, joined by spaces.
pub fn scopes_text(sync15: bool) -> (r: String)
    ensures
        r@ == join_spaced(scope_list(sync15)),
{
    proof {
        reveal_strlit("intgr");
        reveal_strlit("screenshare");
        reveal_strlit("hwcmail:-1");
        reveal_strlit("mail:-1");
        reveal_strlit("sync15");
        reveal_strlit("intgr screenshare hwcmail:-1 mail:-1");
        reveal_strlit(" sync15");
        reveal_with_fuel(join_spaced, 6);
    }
    let mut out = String::from_str("intgr screenshare hwcmail:-1 mail:-1");
    assert(out@ =~= join_spaced(base_scopes()));
    if sync15 {
        out.append(" sync15");
        assert(base_scopes().push("sync15"@).drop_last() =~= base_scopes());
        assert(out@ =~= join_spaced(scope_list(true)));
    }
    out
}

fn pair(key: &str, value: String) -> (r: (String, String))
    ensures
        r.0@ == key@,
        r.1@ == value@,
{
    (String::from_str(key), value)
}

/// The claim set of a session token for `user`, expiring at `expires_at`,
/// in key order.
pub fn token_claims(user: &UserProfile, browser_id: &str, expires_at: i64) -> (r: Vec<(String, String)>)
    ensures
        pairs_view(r@) == claim_set(user.email@, browser_id@, user.sync15, expires_at),
{
    let email = String::from_str(user.email.as_str());
    let mut c: Vec<(String, String)> = Vec::new();
    c.push(pair("Audience", String::from_str("web")));
    c.push(pair("BrowserID", String::from_str(browser_id)));
    c.push(pair("CreatedAt", decimal_text(expires_at)));
    c.push(pair("Email", email.clone()));
    c.push(pair("ExpiresAt", decimal_text(expires_at)));
    c.push(pair("Issuer", String::from_str("rmCloud WEB")));
    c.push(pair("Scopes", scopes_text(user.sync15)));
    c.push(pair("UpdatedAt", decimal_text(expires_at)));
    c.push(pair("UserID", email));
    assert(pairs_view(c@) =~= claim_set(user.email@, browser_id@, user.sync15, expires_at));
    c
}

/// Mints the session token of `user` at instant `now`, with `browser_id` as
/// its browser identifier; it expires a day later.
pub fn mint_token(secret: &str, user: &UserProfile, browser_id: &str, now: i64) -> (r: String)
    ensures
        r@ == hs256_token(
            secret@,
            claim_set(user.email@, browser_id@, user.sync15, token_expiry(now)),
        ),
{
    let expires_at = if now <= i64::MAX - TOKEN_LIFETIME {
        now + TOKEN_LIFETIME
    } else {
        i64::MAX
    };
    let claims = token_claims(user, browser_id, expires_at);
    sign_claims(secret, &claims)
}

/// Mints the session token of `user` now, with a fresh browser identifier.
pub fn create_jwt_from_userprofile(secret: &str, user: &UserProfile) -> (r: String)
    ensures
        exists|browser_id: Seq<char>, now: i64|
            now >= 0 && is_v4_text(browser_id) && r@ == hs256_token(
                secret@,
                claim_set(user.email@, browser_id, user.sync15, token_expiry(now)),
            ),
{
    let browser_id = new_browser_id();
    let now = now_unix_seconds();
    mint_token(secret, user, browser_id.as_str(), now)
}

/// The claims of `jwt` where it is a well-formed token whose signature
/// matches `secret`. Expiry is not checked here.
pub fn verify_and_get_claims(jwt: &str, secret: &str) -> (r: Result<
    Vec<(String, String)>,
    TokenError,
>)
    ensures
        r is Ok <==> hs256_claims(jwt@, secret@) is Some,
        r matches Ok(c) ==> hs256_claims(jwt@, secret@) == Some(pairs_view(c@)),
        reads_back(r, jwt@, secret@),
{
    verify_claims(jwt, secret)
}

/// The value of the first claim whose key is `key`.
pub fn find_claim(claims: &Vec<(String, String)>, key: &str) -> (r: Option<String>)
    ensures
        match r {
            Some(v) => claim(pairs_view(claims@), key@) == Some(v@),
            None => claim(pairs_view(claims@), key@) is None,
        },
{
    let wanted = String::from_str(key);
    let ghost c = pairs_view(claims@);
    let mut i: usize = 0;
    while i < claims.len()
        invariant
            i <= claims@.len(),
            c == pairs_view(claims@),
            wanted@ == key@,
            claim(c, key@) == claim_from(c, key@, i as int),
        decreases claims@.len() - i,
    {
        assert(c[i as int] == (claims@[i as int].0@, claims@[i as int].1@));
        if claims[i].0 == wanted {
            return Some(claims[i].1.clone());
        }
        i = i + 1;
    }
    None
}

/// What a request to refresh a verified token comes to.
pub enum RefreshOutcome {
    /// The request is refused.
    Unauthorized,
    /// The token is still valid and is handed back.
    Echo,
    /// The token has expired; a new one is minted for this address.
    Renew(Seq<char>),
}

/// The refresh rule: the `UserID` claim must be a valid address and the
/// `ExpiresAt` claim a decimal instant; a token whose expiry is before `now`
/// is renewed, any other is handed back.
pub open spec fn refresh_outcome(c: Seq<(Seq<char>, Seq<char>)>, now: i64) -> RefreshOutcome {
    match claim(c, "UserID"@) {
        None => RefreshOutcome::Unauthorized,
        Some(user) => if !is_email(user) {
            RefreshOutcome::Unauthorized
        } else {
            match claim(c, "ExpiresAt"@) {
                None => RefreshOutcome::Unauthorized,
                Some(x) => match parsed_i64(x) {
                    None => RefreshOutcome::Unauthorized,
                    Some(e) => if e < now {
                        RefreshOutcome::Renew(user)
                    } else {
                        RefreshOutcome::Echo
                    },
                },
            }
        },
    }
}

/// The body of a login or refresh answer: a session token.
#[derive(Debug)]
pub struct JWT {
    pub jwt: String,
}

/// A request refused without saying why.
#[derive(Debug, Clone, Copy, PartialEq, Eq)]
pub enum AuthError {
    Unauthorized,
}

/// What to do with a verified token.
#[derive(Debug)]
pub enum RefreshAction {
    /// Hand the token back unchanged.
    Echo,
    /// Mint a new token for this user.
    Renew(EMail),
}

/// Decides a refresh request from the claims of a verified token at `now`.
pub fn refresh_decision(claims: &Vec<(String, String)>, now: i64) -> (r: Result<
    RefreshAction,
    AuthError,
>)
    ensures
        r is Err <==> refresh_outcome(pairs_view(claims@), now) is Unauthorized,
        r matches Ok(RefreshAction::Echo) <==> refresh_outcome(pairs_view(claims@), now) is Echo,
        r matches Ok(RefreshAction::Renew(e)) ==> refresh_outcome(pairs_view(claims@), now)
            == RefreshOutcome::Renew(e@),
{
    let user = match find_claim(claims, "UserID") {
        None => {
            return Err(AuthError::Unauthorized);
        },
        Some(u) => u,
    };
    let email = match EMail::create(user.as_str()) {
        Err(_) => {
            return Err(AuthError::Unauthorized);
        },
        Ok(e) => e,
    };
    let text = match find_claim(claims, "ExpiresAt") {
        None => {
            return Err(AuthError::Unauthorized);
        },
        Some(x) => x,
    };
    match parse_i64(text.as_str()) {
        None => Err(AuthError::Unauthorized),
        Some(e) => if e < now {
            Ok(RefreshAction::Renew(email))
        } else {
            Ok(RefreshAction::Echo)
        },
    }
}

/// In the claim set of a user's token, `UserID` and `Email` hold the user's
/// address, `ExpiresAt` the decimal expiry, and `Scopes` the user's scopes
/// joined by spaces; that scope list holds `sync15` exactly when the user
/// has the flag.
pub proof fn lemma_claims_identify_user(
    email: Seq<char>,
    browser_id: Seq<char>,
    sync15: bool,
    expires: i64,
)
    ensures
        claim(claim_set(email, browser_id, sync15, expires), "UserID"@) == Some(email),
        claim(claim_set(email, browser_id, sync15, expires), "Email"@) == Some(email),
        claim(claim_set(email, browser_id, sync15, expires), "ExpiresAt"@) == Some(
            decimal(expires as int),
        ),
        claim(claim_set(email, browser_id, sync15, expires), "Scopes"@) == Some(
            join_spaced(scope_list(sync15)),
        ),
        scope_list(sync15).contains("sync15"@) <==> sync15,
{
    reveal_strlit("Audience");
    reveal_strlit("BrowserID");
    reveal_strlit("CreatedAt");
    reveal_strlit("Email");
    reveal_strlit("ExpiresAt");
    reveal_strlit("Issuer");
    reveal_strlit("Scopes");
    reveal_strlit("UpdatedAt");
    reveal_strlit("UserID");
    reveal_strlit("intgr");
    reveal_strlit("screenshare");
    reveal_strlit("hwcmail:-1");
    reveal_strlit("mail:-1");
    reveal_strlit("sync15");
    reveal_with_fuel(claim_from, 10);
    let c = claim_set(email, browser_id, sync15, expires);
    assert(c[0].0 == "Audience"@);
    assert("Audience"@.len() != "UserID"@.len());
    assert(c[5].0 == "Issuer"@);
    assert("Issuer"@[0] != "UserID"@[0]);
    assert(c[6].0 != "UserID"@);
    assert(c[5].0 != "Scopes"@);
    assert(c[1].0 == "BrowserID"@);
    assert("BrowserID"@[0] != "ExpiresAt"@[0]);
    assert(c[2].0 == "CreatedAt"@);
    assert("CreatedAt"@[0] != "ExpiresAt"@[0]);
    assert(c[3].0 == "Email"@);
    assert("Email"@.len() != "ExpiresAt"@.len());
    if sync15 {
        assert(scope_list(sync15)[4] == "sync15"@);
    } else {
        assert forall|i: int| 0 <= i < base_scopes().len() implies base_scopes()[i] != "sync15"@ by {
            assert(base_scopes()[i].len() != 6);
        }
    }
}

/// A claim set minted for a valid address is handed back while its expiry
/// is not before `now`, and renewed for the same address once it is.
pub proof fn lemma_refresh_of_claim_set(
    email: Seq<char>,
    browser_id: Seq<char>,
    sync15: bool,
    expires: i64,
    now: i64,
)
    requires
        is_email(email),
    ensures
        refresh_outcome(claim_set(email, browser_id, sync15, expires), now) == (if expires < now {
            RefreshOutcome::Renew(email)
        } else {
            RefreshOutcome::Echo
        }),
{
    lemma_claims_identify_user(email, browser_id, sync15, expires);
    lemma_decimal_round_trip(expires);
}

/// The keys of a token's claim set strictly increase, so verifying the token
/// with the secret it was minted with gives the claim set back unchanged.
pub proof fn lemma_claim_set_keys_increasing(
    email: Seq<char>,
    browser_id: Seq<char>,
    sync15: bool,
    expires: i64,
)
    ensures
        keys_increasing(claim_set(email, browser_id, sync15, expires)),
{
    reveal_strlit("Audience");
    reveal_strlit("BrowserID");
    reveal_strlit("CreatedAt");
    reveal_strlit("Email");
    reveal_strlit("ExpiresAt");
    reveal_strlit("Issuer");
    reveal_strlit("Scopes");
    reveal_strlit("UpdatedAt");
    reveal_strlit("UserID");
    reveal_with_fuel(text_lt, 3);
    let c = claim_set(email, browser_id, sync15, expires);
    assert(text_lt("Audience"@, "BrowserID"@));
    assert(text_lt("BrowserID"@, "CreatedAt"@));
    assert(text_lt("CreatedAt"@, "Email"@));
    assert("Email"@.drop_first() =~= seq!['m', 'a', 'i', 'l']);
    assert("ExpiresAt"@.drop_first() =~= seq!['x', 'p', 'i', 'r', 'e', 's', 'A', 't']);
    assert(text_lt("Email"@, "ExpiresAt"@));
    assert(text_lt("ExpiresAt"@, "Issuer"@));
    assert(text_lt("Issuer"@, "Scopes"@));
    assert(text_lt("Scopes"@, "UpdatedAt"@));
    assert("UpdatedAt"@.drop_first() =~= seq!['p', 'd', 'a', 't', 'e', 'd', 'A', 't']);
    assert("UserID"@.drop_first() =~= seq!['s', 'e', 'r', 'I', 'D']);
    assert(text_lt("UpdatedAt"@, "UserID"@));
    assert forall|i: int| 0 <= i < c.len() - 1 implies text_lt(#[trigger] c[i].0, c[i + 1].0) by {
        assert(0 <= i < 8);
    }
}

} // verus!
