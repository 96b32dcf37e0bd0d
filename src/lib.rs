//! Authentication core of a self-hosted tablet sync service: validated email
//! addresses, user records and their profile documents, one-time access codes
//! with expiry, and the claim sets of signed session tokens.
//!
//! File and network I/O stay with the caller: the stores say where their
//! files are and decide each operation; the caller reads and writes.

mod clock;
mod codes;
mod config;
mod decimal;
mod document;
mod email;
mod error;
mod login;
mod profile;
mod storage;
mod text;
mod token;
mod user_store;

pub use codes::{
    code_check, code_of, code_of_draws, codes_for, codes_wf, expiry_after, first_expiry,
    generate_code, is_code, lemma_clean_leaves_no_expired, lemma_code_of_is_code,
    lemma_issued_code_validates, list_or_empty, other_code, retained, unexpired, CodeEntry,
    CodeList, CodeLocalStorage, ALPHABET_SIZE, CODE_LIFETIME, CODE_SIZE,
};
pub use config::{
    api_spec, common_spec, config_ok, hwr_spec, lookup, smtp_spec, ui_spec, Api, ApiError,
    ApiFields, Common, CommonError, CommonFields, Config, ConfigError, ConfigValue, FieldProblem,
    HwrFields, SmtpFields, TomlError, Ui, UiError, HWR, SMTP,
};
pub use decimal::{decimal, decimal_text, lemma_decimal_round_trip, parse_i64, parsed_i64};
pub use email::{
    is_email, lemma_address_chars, lemma_malformed_rejected, validate_email, EMail, EMailError,
};
pub use error::LocalStorageError;
pub use login::{check_login, login_user, validation_report, ValidationReport};
pub use document::{
    codes_of_yaml, codes_yaml, doc_reads_back, instant_of_text, instant_text, instants_in_range,
    instants_readable, keys_sorted, loads_back, written_by,
    store_of_text, LAST_INSTANT,
    store_text,
};
pub use profile::{
    field_view, flag_field, no_newline, parse_profile, profile_text, text_field, yaml_field,
    FieldValue, ProfileFields, ProfileKey, UserLocalFile, UserProfile, UserProfileError, YamlField,
};
pub use storage::{CodeStorage, UserStorage};
pub use text::{
    lemma_text_lt_irreflexive, lemma_text_lt_total, lemma_text_lt_transitive, text_less, text_lt,
};
pub use token::{
    claim, claim_set, create_jwt_from_userprofile, find_claim, is_v4_text, keys_increasing,
    lemma_claim_set_keys_increasing, lemma_claims_identify_user,
    lemma_refresh_of_claim_set, mint_token, reads_back, refresh_decision, refresh_outcome, scopes_text,
    token_claims, token_expiry, verify_and_get_claims, AuthError, RefreshAction, RefreshOutcome,
    TokenError, JWT, TOKEN_LIFETIME,
};
pub use user_store::{
    get_user_folder, get_user_profile, read_user, stored_user, stored_view,
    Storage, UserLocalStorage,
};
