use warden_twofactor::error::{AppError, Refusal};
use warden_twofactor::exchange::{Action, Event, Payload, Reply};
use warden_twofactor::handlers::commit::store_made;
use warden_twofactor::handlers::email::{
    accept_email, judge_code, normal_email, prove_email, send_login_email_token, store_challenge,
    try_code,
    validate_email_login_code,
};
use warden_twofactor::handlers::flow::{EmailFlow, Flow, Step, Upkeep, YubikeyJob};
use warden_twofactor::handlers::gate::step;
use warden_twofactor::handlers::totp::{drop_record, put_key};
use warden_twofactor::handlers::twofactor::{
    activate_authenticator, activate_authenticator_put, activate_email, activate_webauthn,
    activate_webauthn_put, activate_yubikey, activate_yubikey_put, delete_webauthn,
    disable_authenticator, disable_twofactor, disable_twofactor_put,
    enabled_twofactor_provider_ids, generate_webauthn_login_options, get_authenticator, get_email,
    get_recover, get_twofactor, get_webauthn, get_webauthn_challenge, get_yubikey,
    is_twofactor_enabled, obscure_email, send_email, send_email_login, validate_webauthn_login,
    serve, PartyRequest, ReadTwoFactor,
};
use warden_twofactor::handlers::webauthn::{display_name, find_slot, merge_registration};
use warden_twofactor::handlers::yubikey::{scan_otps, sorted_keys, Scanned};
use warden_twofactor::json::Json;
use warden_twofactor::models::twofactor::{
    ActivateEmailData, DeleteWebauthnData, DisableAuthenticatorData, DisableTwoFactorData,
    EmailTokenData, EnableAuthenticatorData, EnableWebauthnData, EnableYubikeyData,
    NumberOrString, SendEmailData, SendEmailLoginData, TwoFactor, TwoFactorType, YubikeyMetadata,
};
use warden_twofactor::models::user::{PasswordOrOtpData, User};
use warden_twofactor::store::{Query, Write};
use warden_twofactor::webauthn::{
    AuthenticatorAssertionResponse, AuthenticatorAttestationResponse, ClientData,
    LoginChallengeState, PublicKeyCredentialAssertion, RegisterChallengeState,
    RegisterPublicKeyCredential, StoredCredential, WebauthnRegistration,
};
use warden_twofactor::yubico::{Setting, YubicoSettings};

const BASE: &str = "https://vault.example.com";
const OTP: &str = "cccccckdvvulgjvtkjdhtlrbjjctggdihuevikehtlil";

fn s(t: &str) -> String {
    t.to_string()
}

fn user() -> User {
    User { id: s("u"), email: s("user@example.com"), name: Some(s("User")), totp_recover: None }
}

fn password() -> PasswordOrOtpData {
    PasswordOrOtpData { master_password_hash: Some(s("hash")), otp: None }
}

fn row(atype: i32, data: &str) -> TwoFactor {
    TwoFactor {
        uuid: s("row"),
        user_uuid: s("u"),
        atype,
        enabled: true,
        data: s(data),
        last_used: 41,
    }
}

fn words(e: AppError) -> String {
    match e {
        AppError::BadRequest(why) => why.message(),
        AppError::Unauthorized(why) => format!("401 {}", why.message()),
        AppError::Database => s("database"),
        AppError::Internal => s("internal"),
    }
}

fn failed(out: Step) -> String {
    match out {
        Step::Done(Err(e)) => words(e),
        Step::Done(Ok(_)) => panic!("succeeded"),
        Step::Ask(_, action) => panic!("went on with {:?}", action),
    }
}

fn asked(out: Step) -> (Flow, Action) {
    match out {
        Step::Ask(flow, action) => (flow, action),
        Step::Done(end) => panic!("ended with {:?}", end),
    }
}

fn document(out: Step) -> Json {
    match out {
        Step::Done(Ok(Reply::Json(j))) => j,
        Step::Done(end) => panic!("ended with {:?}", end),
        Step::Ask(_, action) => panic!("went on with {:?}", action),
    }
}

fn entry<'a>(j: &'a Json, name: &str) -> &'a Json {
    match j {
        Json::Object(fields) => &fields.entries.iter().find(|e| e.0 == name).expect("field").1,
        _ => panic!("no object"),
    }
}

fn text(j: &Json) -> String {
    match j {
        Json::Text(t) => t.clone(),
        _ => panic!("no text"),
    }
}

fn is_true(j: &Json) -> bool {
    match j {
        Json::Bool(b) => *b,
        _ => panic!("no truth value"),
    }
}

/// Goes through the password, and asserts that it is asked for as it should be.
fn unlocked(out: Step) -> Step {
    let (flow, action) = asked(out);
    match action {
        Action::Query(Query::User { id }) => assert_eq!(id, "u"),
        other => panic!("asked {:?}", other),
    }
    let (flow, action) = asked(step(flow, Event::User(Some(user()))));
    match action {
        Action::VerifyPassword { user_id, password_hash } => {
            assert_eq!((user_id.as_str(), password_hash.as_str()), ("u", "hash"))
        }
        other => panic!("asked {:?}", other),
    }
    step(flow, Event::Password(true))
}

fn asks_row(action: Action, atype: i32) {
    match action {
        Action::Query(Query::TwoFactorOfType { user_id, atype: t }) => {
            assert_eq!((user_id.as_str(), t), ("u", atype))
        }
        other => panic!("asked {:?}", other),
    }
}

/// Runs the recovery code of a user who has none.
fn recovery_is_issued(out: Step) -> Step {
    let (flow, action) = asked(out);
    assert!(matches!(action, Action::Query(Query::RecoveryCode { .. })));
    let (flow, action) = asked(step(flow, Event::RecoveryCode(Some(None))));
    assert!(matches!(action, Action::NewRecoveryCode));
    let (flow, action) = asked(step(flow, Event::Text(s("CODE"))));
    match action {
        Action::Write(Write::SetRecovery { user_id, code }) => {
            assert_eq!((user_id.as_str(), code.as_str()), ("u", "CODE"))
        }
        other => panic!("asked {:?}", other),
    }
    step(flow, Event::Done)
}

fn email_data(token: Option<&str>, sent: i64) -> EmailTokenData {
    EmailTokenData {
        email: s("user@example.com"),
        last_token: token.map(|t| s(t)),
        token_sent: sent,
        attempts: 0,
    }
}

fn key(id: i32, cred: &str) -> WebauthnRegistration {
    WebauthnRegistration {
        id,
        name: format!("key {}", id),
        migrated: false,
        credential: StoredCredential {
            cred_id: s(cred),
            public_key: s("BAAA"),
            sign_count: 0,
            backup_eligible: false,
            backup_state: false,
        },
    }
}

fn yubico_settings() -> YubicoSettings {
    let set = |v: &str| Setting { secret: Some(s(v)), variable: None };
    YubicoSettings { client_id: set("87"), secret_key: set("c2VjcmV0"), server: None }
}

fn b64(data: &[u8]) -> String {
    base64::Engine::encode(&base64::engine::general_purpose::URL_SAFE_NO_PAD, data)
}

// The password

#[test]
fn password_is_checked_before_anything_else() {
    let (flow, _) = asked(get_recover(s("u"), password()));
    assert_eq!(failed(step(flow, Event::User(None))), "401 User not found");
    let (flow, _) = asked(get_recover(s("u"), password()));
    let (flow, _) = asked(step(flow, Event::User(Some(user()))));
    assert_eq!(failed(step(flow, Event::Password(false))), "401 Invalid password");
    let without = PasswordOrOtpData { master_password_hash: None, otp: Some(s("123")) };
    let (flow, _) = asked(get_recover(s("u"), without));
    assert_eq!(failed(step(flow, Event::User(Some(user())))), "401 Invalid password");
}

#[test]
fn failures_end_a_request() {
    let (flow, _) = asked(get_recover(s("u"), password()));
    assert_eq!(failed(step(flow, Event::Failed(AppError::Database))), "database");
    let (flow, _) = asked(get_recover(s("u"), password()));
    assert_eq!(failed(step(flow, Event::Done)), "internal");
}

// Providers

#[test]
fn providers_are_listed() {
    let (flow, action) = asked(get_twofactor(s("u")));
    assert!(matches!(action, Action::Query(Query::TwoFactors { .. })));
    let disabled = TwoFactor { enabled: false, ..row(3, "{}") };
    let j = document(step(flow, Event::Rows(vec![row(0, "KEY"), disabled, row(7, "[]")])));
    match entry(&j, "data") {
        Json::Array(items) => {
            assert_eq!(items.len(), 2);
            assert!(matches!(entry(&items[0], "type"), Json::Int(0)));
            assert!(matches!(entry(&items[1], "type"), Json::Int(7)));
            assert!(is_true(entry(&items[0], "enabled")) && is_true(entry(&items[1], "enabled")));
        }
        _ => panic!("no array"),
    }
    assert_eq!(text(entry(&j, "object")), "list");
    assert!(matches!(entry(&j, "continuationToken"), Json::Null));
}

#[test]
fn providers_count_where_a_login_can_use_them() {
    let read = |atype: i32, enabled: bool, keys: Option<usize>| {
        let mut r = row(atype, "");
        r.enabled = enabled;
        ReadTwoFactor {
            row: r,
            registrations: keys.map(|n| {
                let mut v = Vec::new();
                for i in 0..n {
                    v.push(key(i as i32, "c"));
                }
                v
            }),
        }
    };
    assert!(!is_twofactor_enabled(&[]));
    for atype in [0, 1, 3] {
        assert!(is_twofactor_enabled(&[read(atype, true, None)]));
        assert!(!is_twofactor_enabled(&[read(atype, false, None)]));
    }
    assert!(!is_twofactor_enabled(&[read(5, true, Some(1)), read(7, true, Some(0))]));
    assert!(!is_twofactor_enabled(&[read(7, true, None)]));
    assert!(is_twofactor_enabled(&[read(7, true, Some(1))]));
    assert_eq!(
        enabled_twofactor_provider_ids(&[
            read(7, true, Some(2)),
            read(3, true, None),
            read(0, false, None),
            read(1, true, None),
            read(3, true, None),
            read(5, true, None),
        ]),
        vec![1, 3, 7]
    );
    assert!(enabled_twofactor_provider_ids(&[read(7, true, Some(0))]).is_empty());
}

#[test]
fn addresses_are_obscured() {
    assert_eq!(obscure_email("nobody"), "***");
    assert_eq!(obscure_email("@example.com"), "@example.com");
    assert_eq!(obscure_email("a@example.com"), "*@example.com");
    assert_eq!(obscure_email("abc@example.com"), "***@example.com");
    assert_eq!(obscure_email("abcd@example.com"), "ab**@example.com");
    assert_eq!(obscure_email("a@b@example.com"), "***@example.com");
    assert_eq!(obscure_email("\u{e9}\u{e8}\u{ea}\u{eb}z@x"), "\u{e9}\u{e8}***@x");
}

// Time-based codes

#[test]
fn totp_key_is_shown_or_made() {
    let (flow, action) = asked(unlocked(get_authenticator(s("u"), password())));
    asks_row(action, 0);
    let j = document(step(flow, Event::Row(Some(row(0, "KEY")))));
    assert!(is_true(entry(&j, "enabled")));
    assert_eq!(text(entry(&j, "key")), "KEY");
    assert_eq!(text(entry(&j, "object")), "twoFactorAuthenticator");
    let (flow, _) = asked(unlocked(get_authenticator(s("u"), password())));
    let (flow, action) = asked(step(flow, Event::Row(None)));
    assert!(matches!(action, Action::NewTotpSecret));
    let j = document(step(flow, Event::Text(s("NEW"))));
    assert!(!is_true(entry(&j, "enabled")));
    assert_eq!(text(entry(&j, "key")), "NEW");
}

fn enable_totp() -> EnableAuthenticatorData {
    EnableAuthenticatorData {
        key: s("abc"),
        token: s("123456"),
        master_password_hash: Some(s("hash")),
        otp: None,
    }
}

#[test]
fn totp_key_is_activated() {
    let (flow, action) = asked(unlocked(activate_authenticator(s("u"), enable_totp())));
    match action {
        Action::DecodeBase32 { text } => assert_eq!(text, "ABC"),
        other => panic!("asked {:?}", other),
    }
    let (flow, action) = asked(step(flow, Event::Bytes(vec![0; 20])));
    asks_row(action, 0);
    let (flow, action) = asked(step(flow, Event::Row(Some(row(0, "OLD")))));
    match action {
        Action::ValidateTotp { token, key, last_used } => {
            assert_eq!((token.as_str(), key.as_str(), last_used), ("123456", "ABC", 41))
        }
        other => panic!("asked {:?}", other),
    }
    let (flow, action) = asked(step(flow, Event::Step(42)));
    match action {
        Action::Write(Write::DeleteTypes { user_id, first, second }) => {
            assert_eq!((user_id.as_str(), first, second), ("u", 0, 5))
        }
        other => panic!("asked {:?}", other),
    }
    let (flow, action) = asked(step(flow, Event::Done));
    match action {
        Action::Write(Write::Insert { row }) => {
            assert_eq!((row.atype, row.data.as_str(), row.last_used), (0, "ABC", 42));
            assert!(row.enabled);
            assert_eq!(row.user_uuid, "u");
        }
        other => panic!("asked {:?}", other),
    }
    let j = document(recovery_is_issued(step(flow, Event::Done)));
    assert!(is_true(entry(&j, "enabled")));
    assert_eq!(text(entry(&j, "key")), "ABC");
}

#[test]
fn totp_activation_can_fail() {
    let (flow, _) = asked(unlocked(activate_authenticator_put(s("u"), enable_totp())));
    assert_eq!(failed(step(flow, Event::Bytes(vec![0; 19]))), "Invalid key length");
    let (flow, _) = asked(unlocked(activate_authenticator(s("u"), enable_totp())));
    let (flow, _) = asked(step(flow, Event::Bytes(vec![0; 20])));
    let (flow, action) = asked(step(flow, Event::Row(None)));
    assert!(matches!(action, Action::ValidateTotp { last_used: 0, .. }));
    let wrong = AppError::BadRequest(Refusal::Other { message: s("Invalid TOTP code") });
    assert_eq!(failed(step(flow, Event::Failed(wrong))), "Invalid TOTP code");
}

#[test]
fn recovery_code_is_kept() {
    let (flow, _) = asked(unlocked(activate_authenticator(s("u"), enable_totp())));
    let (flow, _) = asked(step(flow, Event::Bytes(vec![0; 20])));
    let (flow, _) = asked(step(flow, Event::Row(None)));
    let (flow, _) = asked(step(flow, Event::Step(42)));
    let (flow, _) = asked(step(flow, Event::Done));
    let (flow, _) = asked(step(flow, Event::Done));
    document(step(flow, Event::RecoveryCode(Some(Some(s("OLD"))))));
    let (flow, _) = asked(unlocked(activate_authenticator(s("u"), enable_totp())));
    let (flow, _) = asked(step(flow, Event::Bytes(vec![0; 20])));
    let (flow, _) = asked(step(flow, Event::Row(None)));
    let (flow, _) = asked(step(flow, Event::Step(42)));
    let (flow, _) = asked(step(flow, Event::Done));
    let (flow, _) = asked(step(flow, Event::Done));
    assert_eq!(failed(step(flow, Event::RecoveryCode(None))), "401 User not found");
}

#[test]
fn provider_is_disabled() {
    let data = || DisableTwoFactorData {
        master_password_hash: Some(s("hash")),
        otp: None,
        type_: 3,
    };
    let (flow, action) = asked(unlocked(disable_twofactor(s("u"), data())));
    assert!(matches!(action, Action::Write(Write::DeleteType { atype: 3, .. })));
    let (flow, action) = asked(step(flow, Event::Done));
    assert!(matches!(action, Action::Query(Query::Providers { .. })));
    let (flow, action) = asked(step(flow, Event::Rows(vec![])));
    assert!(matches!(action, Action::Write(Write::ClearRecovery { .. })));
    let j = document(step(flow, Event::Done));
    assert!(!is_true(entry(&j, "enabled")));
    assert!(matches!(entry(&j, "type"), Json::Int(3)));
    assert_eq!(text(entry(&j, "object")), "twoFactorProvider");
    let (flow, _) = asked(unlocked(disable_twofactor(s("u"), data())));
    let (flow, _) = asked(step(flow, Event::Done));
    document(step(flow, Event::Rows(vec![row(0, "KEY")])));
}

#[test]
fn totp_is_disabled_with_its_key() {
    let data = |key: &str, type_: i32| DisableAuthenticatorData {
        key: s(key),
        master_password_hash: Some(s("hash")),
        otp: None,
        type_,
    };
    assert_eq!(failed(disable_authenticator(s("u"), data("key", 1))), "Invalid two factor type");
    let (flow, action) = asked(unlocked(disable_authenticator(s("u"), data("key", 0))));
    asks_row(action, 0);
    assert_eq!(failed(step(flow, Event::Row(None))), "TOTP not configured");
    let (flow, _) = asked(unlocked(disable_authenticator(s("u"), data("other", 0))));
    assert_eq!(
        failed(step(flow, Event::Row(Some(row(0, "KEY"))))),
        "TOTP key does not match recorded value"
    );
    let (flow, _) = asked(unlocked(disable_authenticator(s("u"), data("key", 0))));
    let (flow, action) = asked(step(flow, Event::Row(Some(row(0, "KEY")))));
    match action {
        Action::Write(Write::DeleteRow { uuid }) => assert_eq!(uuid, "row"),
        other => panic!("asked {:?}", other),
    }
    let (flow, _) = asked(step(flow, Event::Done));
    let (flow, _) = asked(step(flow, Event::Rows(vec![])));
    document(step(flow, Event::Done));
}

#[test]
fn recovery_code_is_shown() {
    let j = document(unlocked(get_recover(s("u"), password())));
    assert!(matches!(entry(&j, "code"), Json::Null));
    assert_eq!(text(entry(&j, "object")), "twoFactorRecover");
    let (flow, _) = asked(get_recover(s("u"), password()));
    let mut with_code = user();
    with_code.totp_recover = Some(s("CODE"));
    let (flow, _) = asked(step(flow, Event::User(Some(with_code))));
    let j = document(step(flow, Event::Password(true)));
    assert_eq!(text(entry(&j, "code")), "CODE");
}

// Email

#[test]
fn email_provider_is_shown() {
    let (flow, action) = asked(unlocked(get_email(s("u"), password())));
    asks_row(action, 1);
    let j = document(step(flow, Event::Row(None)));
    assert!(matches!(entry(&j, "email"), Json::Null));
    assert!(!is_true(entry(&j, "enabled")));
    let (flow, _) = asked(unlocked(get_email(s("u"), password())));
    let (flow, action) = asked(step(flow, Event::Row(Some(row(1, "{}")))));
    assert!(matches!(action, Action::ReadEmailToken { .. }));
    let j = document(step(flow, Event::EmailToken(Some(email_data(None, 0)))));
    assert_eq!(text(entry(&j, "email")), "user@example.com");
    assert!(is_true(entry(&j, "enabled")));
    let (flow, _) = asked(unlocked(get_email(s("u"), password())));
    let (flow, _) = asked(step(flow, Event::Row(Some(row(1, "{}")))));
    assert_eq!(failed(step(flow, Event::EmailToken(None))), "Could not decode email 2FA data");
}

fn send_data(email: &str) -> SendEmailData {
    SendEmailData { email: s(email), master_password_hash: Some(s("hash")), otp: None }
}

#[test]
fn email_proof_is_sent() {
    let (flow, action) = asked(unlocked(send_email(s("u"), send_data("  User@Example.com "))));
    assert!(matches!(
        action,
        Action::Write(Write::DeleteTypes { first: 1, second: 1000, .. })
    ));
    let (flow, action) = asked(step(flow, Event::Done));
    assert!(matches!(action, Action::NewEmailToken { digits: 6 }));
    let (flow, action) = asked(step(flow, Event::Text(s("123456"))));
    match action {
        Action::Encode(Payload::EmailToken(data)) => {
            assert_eq!(data.email, "user@example.com");
            assert_eq!(data.last_token, Some(s("123456")));
            assert_eq!(data.attempts, 0);
        }
        other => panic!("asked {:?}", other),
    }
    let (flow, action) = asked(step(flow, Event::Text(s("{json}"))));
    match action {
        Action::Write(Write::Insert { row }) => {
            assert_eq!((row.atype, row.data.as_str()), (1000, "{json}"))
        }
        other => panic!("asked {:?}", other),
    }
    let (flow, action) = asked(step(flow, Event::Done));
    match action {
        Action::SendToken { to, token } => {
            assert_eq!((to.as_str(), token.as_str()), ("user@example.com", "123456"))
        }
        other => panic!("asked {:?}", other),
    }
    assert!(matches!(step(flow, Event::Done), Step::Done(Ok(Reply::Done))));
}

#[test]
fn addresses_must_have_an_at() {
    for bad in ["", "   ", "nobody"] {
        assert_eq!(failed(unlocked(send_email(s("u"), send_data(bad)))), "Invalid email");
    }
    assert_eq!(normal_email(" \u{c9}A@B "), "\u{e9}a@b");
    assert_eq!(accept_email(s("a@b")).unwrap(), "a@b");
    assert!(accept_email(s("ab")).is_err());
}

fn activate_data(email: &str, token: &str) -> ActivateEmailData {
    ActivateEmailData {
        email: s(email),
        token: s(token),
        master_password_hash: Some(s("hash")),
        otp: None,
    }
}

fn proving(email: &str, token: &str, data: Option<EmailTokenData>) -> Step {
    let (flow, action) = asked(unlocked(activate_email(s("u"), activate_data(email, token))));
    asks_row(action, 1000);
    let (flow, _) = asked(step(flow, Event::Row(Some(row(1000, "{}")))));
    step(flow, Event::EmailToken(data))
}

#[test]
fn email_is_activated_with_the_code() {
    let (flow, action) =
        asked(proving(" USER@example.com", " 123456 ", Some(email_data(Some("123456"), 5))));
    match action {
        Action::Encode(Payload::EmailToken(data)) => {
            assert_eq!(data.last_token, None);
            assert_eq!(data.email, "user@example.com");
            assert_eq!(data.token_sent, 5);
        }
        other => panic!("asked {:?}", other),
    }
    let (flow, action) = asked(step(flow, Event::Text(s("{json}"))));
    match action {
        Action::Write(Write::SetTypeAndData { uuid, atype, data }) => {
            assert_eq!((uuid.as_str(), atype, data.as_str()), ("row", 1, "{json}"))
        }
        other => panic!("asked {:?}", other),
    }
    let j = document(recovery_is_issued(step(flow, Event::Done)));
    assert_eq!(text(entry(&j, "email")), "user@example.com");
    assert!(is_true(entry(&j, "enabled")));
    assert_eq!(text(entry(&j, "object")), "twoFactorEmail");
}

#[test]
fn email_activation_can_fail() {
    let (flow, _) = asked(unlocked(activate_email(s("u"), activate_data("a@b", "1"))));
    assert_eq!(failed(step(flow, Event::Row(None))), "Email verification challenge not found");
    assert_eq!(failed(proving("a@b", "1", None)), "Could not decode email 2FA data");
    assert_eq!(failed(proving("a@b", "1", Some(email_data(None, 0)))), "No token available");
    assert_eq!(failed(proving("a@b", "1", Some(email_data(Some("2"), 0)))), "Token is invalid");
    assert_eq!(
        failed(proving("a@b", "2", Some(email_data(Some("2"), 0)))),
        "Email does not match challenge"
    );
    assert!(prove_email(email_data(Some("2"), 0), "2", true).is_ok());
}

#[test]
fn login_code_is_sent_after_the_password() {
    let data = SendEmailLoginData {
        email: Some(s(" User@Example.com ")),
        master_password_hash: Some(s("hash")),
        device_identifier: None,
    };
    let (flow, action) = asked(send_email_login(data));
    match action {
        Action::FindUserByEmail { email } => assert_eq!(email, "user@example.com"),
        other => panic!("asked {:?}", other),
    }
    let (flow, action) = asked(step(flow, Event::User(Some(user()))));
    assert!(matches!(action, Action::VerifyPassword { .. }));
    let (flow, action) = asked(step(flow, Event::Password(true)));
    asks_row(action, 1);
    let (flow, _) = asked(step(flow, Event::Row(Some(row(1, "{}")))));
    let mut old = email_data(Some("000000"), 5);
    old.attempts = 2;
    let (flow, action) = asked(step(flow, Event::EmailToken(Some(old))));
    assert!(matches!(action, Action::NewEmailToken { digits: 6 }));
    let (flow, action) = asked(step(flow, Event::Text(s("123456"))));
    match action {
        Action::Encode(Payload::EmailToken(data)) => {
            assert_eq!(data.last_token, Some(s("123456")));
            assert_eq!(data.attempts, 0);
            assert!(data.token_sent > 5);
        }
        other => panic!("asked {:?}", other),
    }
    let (flow, action) = asked(step(flow, Event::Text(s("{json}"))));
    match action {
        Action::Write(Write::SetData { uuid, data }) => {
            assert_eq!((uuid.as_str(), data.as_str()), ("row", "{json}"))
        }
        other => panic!("asked {:?}", other),
    }
    let (flow, action) = asked(step(flow, Event::Done));
    match action {
        Action::SendToken { to, token } => {
            assert_eq!((to.as_str(), token.as_str()), ("user@example.com", "123456"))
        }
        other => panic!("asked {:?}", other),
    }
    assert!(matches!(step(flow, Event::Done), Step::Done(Ok(Reply::Done))));
}

#[test]
fn login_failures_are_told_alike() {
    let incorrect = "401 Username or password is incorrect. Try again.";
    let data = |email: Option<&str>, hash: Option<&str>| SendEmailLoginData {
        email: email.map(|e| s(e)),
        master_password_hash: hash.map(|h| s(h)),
        device_identifier: None,
    };
    assert_eq!(failed(send_email_login(data(None, Some("hash")))), incorrect);
    assert_eq!(failed(send_email_login(data(Some("  "), Some("hash")))), incorrect);
    let (flow, _) = asked(send_email_login(data(Some("a@b"), Some("hash"))));
    assert_eq!(failed(step(flow, Event::User(None))), incorrect);
    let (flow, _) = asked(send_email_login(data(Some("a@b"), None)));
    assert_eq!(failed(step(flow, Event::User(Some(user())))), incorrect);
    let (flow, _) = asked(send_email_login(data(Some("a@b"), Some(""))));
    assert_eq!(failed(step(flow, Event::User(Some(user())))), incorrect);
    let (flow, _) = asked(send_email_login(data(Some("a@b"), Some("hash"))));
    let (flow, _) = asked(step(flow, Event::User(Some(user()))));
    assert_eq!(failed(step(flow, Event::Password(false))), incorrect);
    let (flow, _) = asked(send_login_email_token(s("u")));
    assert_eq!(failed(step(flow, Event::Row(None))), "Email 2FA is not enabled");
    let (flow, _) = asked(send_login_email_token(s("u")));
    let (flow, _) = asked(step(flow, Event::Row(Some(row(1, "{")))));
    assert_eq!(failed(step(flow, Event::EmailToken(None))), "Could not decode email 2FA data");
}

#[test]
fn login_code_is_judged() {
    let (after, end) = judge_code(email_data(Some("123456"), 1000), " 123456\n", 1600);
    assert!(end.is_ok());
    assert_eq!(after.unwrap().last_token, None);
    let (after, end) = judge_code(email_data(Some("123456"), 1000), "123456", 1601);
    assert_eq!(words(end.unwrap_err()), "Token has expired");
    assert_eq!(after.unwrap().last_token, None);
    let (after, end) = judge_code(email_data(None, 1000), "123456", 1000);
    assert_eq!(words(end.unwrap_err()), "No token available");
    assert!(after.is_none());
    // The far ends of time.
    assert!(judge_code(email_data(Some("1"), i64::MAX), "1", i64::MAX).1.is_ok());
    assert!(judge_code(email_data(Some("1"), i64::MIN), "1", i64::MAX).1.is_err());
}

#[test]
fn third_wrong_code_withdraws_the_token() {
    let mut data = email_data(Some("123456"), 1000);
    for attempt in 1..3 {
        let (after, end) = judge_code(data, "654321", 1000);
        assert_eq!(words(end.unwrap_err()), "Token is invalid");
        data = after.unwrap();
        assert_eq!(data.attempts, attempt);
        assert_eq!(data.last_token, Some(s("123456")));
    }
    let (after, _) = judge_code(data, "654321", 1000);
    data = after.unwrap();
    assert_eq!(data.last_token, None);
    assert_eq!(data.attempts, 0);
    let (_, end) = judge_code(data, "123456", 1000);
    assert_eq!(words(end.unwrap_err()), "No token available");
}

#[test]
fn login_code_is_stored_before_the_answer() {
    let (flow, action) = asked(validate_email_login_code(s("u"), s("000000"), s("{}")));
    assert!(matches!(action, Action::ReadEmailToken { .. }));
    let data = email_data(Some("123456"), 0);
    let (flow, action) = asked(step(flow, Event::EmailToken(Some(data))));
    asks_row(action, 1);
    let (flow, action) = asked(step(flow, Event::Row(Some(row(1, "{}")))));
    match action {
        Action::Encode(Payload::EmailToken(data)) => assert_eq!(data.attempts, 1),
        other => panic!("asked {:?}", other),
    }
    let (flow, action) = asked(step(flow, Event::Text(s("{json}"))));
    assert!(matches!(action, Action::Write(Write::SetData { .. })));
    assert_eq!(failed(step(flow, Event::Done)), "Token is invalid");

    // A code sent at the epoch has expired by the clock.
    let (flow, _) = asked(validate_email_login_code(s("u"), s("123456"), s("{}")));
    let data = email_data(Some("123456"), 0);
    let (flow, _) = asked(step(flow, Event::EmailToken(Some(data))));
    let (flow, _) = asked(step(flow, Event::Row(Some(row(1, "{}")))));
    let (flow, _) = asked(step(flow, Event::Text(s("{json}"))));
    assert_eq!(failed(step(flow, Event::Done)), "Token has expired");

    let (flow, _) = asked(validate_email_login_code(s("u"), s("123456"), s("{}")));
    assert_eq!(failed(step(flow, Event::EmailToken(None))), "Could not decode email 2FA data");
    let (flow, _) = asked(validate_email_login_code(s("u"), s("123456"), s("{}")));
    let data = email_data(Some("123456"), 0);
    let (flow, _) = asked(step(flow, Event::EmailToken(Some(data))));
    assert_eq!(failed(step(flow, Event::Row(None))), "Email 2FA is not enabled");
}

#[test]
fn good_login_code_ends_well() {
    let (flow, _) = asked(try_code(email_data(Some("1"), 0), "1", 600, s("row")));
    assert!(matches!(flow, Flow::Email(EmailFlow::CodeStoring { .. })));
    let (flow, _) = asked(step(flow, Event::Text(s("{json}"))));
    assert!(matches!(step(flow, Event::Done), Step::Done(Ok(Reply::Done))));
    assert_eq!(failed(try_code(email_data(None, 0), "1", 0, s("row"))), "No token available");
}

// YubiKeys

#[test]
fn yubikeys_are_shown() {
    let (flow, action) = asked(unlocked(get_yubikey(yubico_settings(), s("u"), password())));
    asks_row(action, 3);
    let j = document(step(flow, Event::Row(None)));
    assert!(!is_true(entry(&j, "enabled")));
    assert_eq!(text(entry(&j, "object")), "twoFactorU2f");
    let (flow, _) = asked(unlocked(get_yubikey(yubico_settings(), s("u"), password())));
    let (flow, _) = asked(step(flow, Event::Row(Some(row(3, "{}")))));
    let meta = YubikeyMetadata { keys: vec![s("one"), s("two")], nfc: true };
    let j = document(step(flow, Event::Yubikey(Some(meta))));
    assert_eq!(text(entry(&j, "Key1")), "one");
    assert_eq!(text(entry(&j, "Key2")), "two");
    assert!(is_true(entry(&j, "enabled")));
    assert!(is_true(entry(&j, "nfc")));
    let (flow, _) = asked(unlocked(get_yubikey(yubico_settings(), s("u"), password())));
    let (flow, _) = asked(step(flow, Event::Row(Some(row(3, "{}")))));
    assert_eq!(failed(step(flow, Event::Yubikey(None))), "Could not decode Yubikey data");
    let mut unset = yubico_settings();
    unset.client_id = Setting { secret: None, variable: None };
    assert_eq!(
        failed(get_yubikey(unset, s("u"), password())),
        "Missing `YUBICO_CLIENT_ID`. Set it as a Worker secret (or variable)."
    );
}

fn yubikeys(keys: [Option<&str>; 5]) -> EnableYubikeyData {
    let slot = |i: usize| keys[i].map(|k| s(k));
    EnableYubikeyData {
        key1: slot(0),
        key2: slot(1),
        key3: slot(2),
        key4: slot(3),
        key5: slot(4),
        nfc: false,
        master_password_hash: Some(s("hash")),
        otp: None,
    }
}

fn activating(keys: [Option<&str>; 5]) -> Step {
    activating_beside(keys, None)
}

/// Starts an activation for a user who has registered keys already.
fn activating_beside(keys: [Option<&str>; 5], registered: Option<Vec<&str>>) -> Step {
    let out = unlocked(activate_yubikey(yubico_settings(), s("u"), yubikeys(keys)));
    let (flow, action) = asked(out);
    asks_row(action, 3);
    match registered {
        None => step(flow, Event::Row(None)),
        Some(registered) => {
            let (flow, action) = asked(step(flow, Event::Row(Some(row(3, "{keys}")))));
            match action {
                Action::ReadYubikey { text } => assert_eq!(text, "{keys}"),
                other => panic!("asked {:?}", other),
            }
            let keys = registered.into_iter().map(s).collect();
            step(flow, Event::Yubikey(Some(YubikeyMetadata { keys, nfc: false })))
        }
    }
}

/// Has YubiCloud vouch for the one-time password that is being verified.
fn vouched(out: Step) -> Step {
    let (flow, action) = asked(out);
    assert!(matches!(action, Action::HmacSha1 { .. }));
    let (flow, action) = asked(step(flow, Event::Bytes(vec![1])));
    let url = match action {
        Action::Fetch { url } => url,
        other => panic!("asked {:?}", other),
    };
    let value = |name: &str| {
        let start = url.find(name).expect("parameter") + name.len();
        url[start..].split('&').next().unwrap().to_string()
    };
    let body = format!("otp={}\nnonce={}\nstatus=OK\nh=Ag==", value("otp="), value("nonce="));
    let (flow, _) = asked(step(flow, Event::Answer { status: 200, body }));
    step(flow, Event::Bytes(vec![2]))
}

#[test]
fn yubikeys_are_activated() {
    let known = Some("VVcccccccccc");
    let registered = Some(vec!["vvcccccccccc", "other"]);
    let sent = [Some(OTP), Some("  "), known, known, None];
    let out = vouched(activating_beside(sent, registered));
    let (flow, action) = asked(out);
    match action {
        Action::Encode(Payload::Yubikey(meta)) => {
            assert_eq!(meta.keys, vec!["cccccckdvvul", "vvcccccccccc"]);
            assert!(!meta.nfc);
        }
        other => panic!("asked {:?}", other),
    }
    let (flow, action) = asked(step(flow, Event::Text(s("{json}"))));
    assert!(matches!(action, Action::Write(Write::DeleteType { atype: 3, .. })));
    let (flow, action) = asked(step(flow, Event::Done));
    match action {
        Action::Write(Write::Insert { row }) => {
            assert_eq!((row.atype, row.data.as_str()), (3, "{json}"))
        }
        other => panic!("asked {:?}", other),
    }
    let j = document(recovery_is_issued(step(flow, Event::Done)));
    assert_eq!(text(entry(&j, "Key1")), "cccccckdvvul");
    assert_eq!(text(entry(&j, "Key2")), "vvcccccccccc");
    assert!(is_true(entry(&j, "enabled")));
}

#[test]
fn yubikey_activation_can_fail() {
    assert_eq!(
        failed(activating([None, None, None, None, None])),
        "At least one YubiKey OTP is required"
    );
    assert_eq!(
        failed(activating([Some("short"), Some(OTP), None, None, None])),
        "Invalid YubiKey OTP length"
    );
    // The length of a later one is looked at only once the earlier ones are verified.
    let out = activating([Some(OTP), Some("short"), None, None, None]);
    assert_eq!(failed(vouched(out)), "Invalid YubiKey OTP length");
    let (flow, _) = asked(activating([Some(OTP), None, None, None, None]));
    let (flow, _) = asked(step(flow, Event::Bytes(vec![1])));
    let refused = Event::Answer { status: 500, body: String::new() };
    assert_eq!(
        failed(step(flow, refused)),
        "Failed to verify Yubikey OTP against YubiCloud"
    );
}

#[test]
fn unregistered_public_ids_are_refused() {
    let id = Some("VVcccccccccc");
    let refused = "Invalid YubiKey OTP length";
    assert_eq!(failed(activating([id, None, None, None, None])), refused);
    let others = Some(vec!["cccccckdvvul", "VVcccccccccc"]);
    assert_eq!(failed(activating_beside([id, None, None, None, None], others)), refused);
    let out = activating([Some(OTP), id, None, None, None]);
    assert_eq!(failed(vouched(out)), refused);
    let out = activating_beside([id, None, None, None, None], Some(vec!["vvcccccccccc"]));
    assert!(matches!(asked(out).1, Action::Encode(Payload::Yubikey(_))));
}

#[test]
fn unreadable_yubikey_record_registers_nothing() {
    let start = |key: &str| {
        let keys = yubikeys([Some(key), None, None, None, None]);
        let (flow, _) = asked(unlocked(activate_yubikey(yubico_settings(), s("u"), keys)));
        let (flow, _) = asked(step(flow, Event::Row(Some(row(3, "broken")))));
        step(flow, Event::Yubikey(None))
    };
    assert_eq!(failed(start("vvcccccccccc")), "Invalid YubiKey OTP length");
    assert!(matches!(asked(start(OTP)).1, Action::HmacSha1 { .. }));
}

#[test]
fn yubikeys_are_scanned_in_order() {
    let job = YubikeyJob {
        user_id: s("u"),
        settings: yubico_settings(),
        rest: vec![s(" "), s("AAAAAAAAAAAA"), s(OTP), s("bad")],
        keys: vec![],
        known: vec![s("aaaaaaaaaaaa")],
        nfc: true,
    };
    match scan_otps(job) {
        Scanned::Verify(job, otp) => {
            assert_eq!(otp, OTP);
            assert_eq!(job.keys, vec!["aaaaaaaaaaaa"]);
            assert_eq!(job.rest, vec!["bad"]);
            assert!(job.nfc);
        }
        other => panic!("{:?}", other),
    }
}

#[test]
fn public_id_must_end_with_a_character() {
    // Forty-four bytes, of which the twelfth and thirteenth are one character.
    let otp = format!("{}\u{e9}{}", "c".repeat(11), "c".repeat(31));
    assert_eq!(otp.len(), 44);
    let (flow, _) = asked(activating([Some(&otp), None, None, None, None]));
    let (flow, action) = asked(step(flow, Event::Bytes(vec![1])));
    let nonce = match action {
        Action::Fetch { url } => {
            let start = url.find("nonce=").unwrap() + 6;
            url[start..].split('&').next().unwrap().to_string()
        }
        other => panic!("asked {:?}", other),
    };
    let body = format!("otp={}\nnonce={}\nstatus=OK\nh=Ag==", otp, nonce);
    let (flow, _) = asked(step(flow, Event::Answer { status: 200, body }));
    assert_eq!(failed(step(flow, Event::Bytes(vec![2]))), "internal");
}

// WebAuthn

#[test]
fn webauthn_keys_are_shown() {
    let (flow, action) = asked(unlocked(get_webauthn(BASE, s("u"), password())));
    asks_row(action, 7);
    let j = document(step(flow, Event::Row(None)));
    assert!(!is_true(entry(&j, "enabled")));
    assert_eq!(text(entry(&j, "object")), "twoFactorWebAuthn");
    let (flow, _) = asked(unlocked(get_webauthn(BASE, s("u"), password())));
    let (flow, action) = asked(step(flow, Event::Row(Some(row(7, "[]")))));
    assert!(matches!(action, Action::ReadRegistrations { .. }));
    let j = document(step(flow, Event::Registrations(Some(vec![key(2, "b")]))));
    assert!(is_true(entry(&j, "enabled")));
    match entry(&j, "keys") {
        Json::Array(items) => assert_eq!(text(entry(&items[0], "name")), "key 2"),
        _ => panic!("no array"),
    }
    let (flow, _) = asked(unlocked(get_webauthn(BASE, s("u"), password())));
    let (flow, _) = asked(step(flow, Event::Row(Some(row(7, "[")))));
    assert_eq!(
        failed(step(flow, Event::Registrations(None))),
        "Could not decode WebAuthn 2FA data"
    );
    assert_eq!(
        failed(get_webauthn("https://127.0.0.1", s("u"), password())),
        "BASE_URL host must be a DNS domain for WebAuthn (IP addresses are not supported)"
    );
}

#[test]
fn registration_challenge_is_stored() {
    let (flow, _) = asked(unlocked(get_webauthn_challenge(BASE, s("u"), password())));
    let (flow, _) = asked(step(flow, Event::Row(Some(row(7, "[]")))));
    let (flow, action) = asked(step(flow, Event::Registrations(Some(vec![key(1, "AAAA")]))));
    let challenge = match action {
        Action::Encode(Payload::RegisterChallenge(state)) => state.challenge,
        other => panic!("asked {:?}", other),
    };
    let (flow, action) = asked(step(flow, Event::Text(s("{json}"))));
    assert!(matches!(action, Action::Write(Write::DeleteType { atype: 1003, .. })));
    let (flow, action) = asked(step(flow, Event::Done));
    match action {
        Action::Write(Write::Insert { row }) => {
            assert_eq!((row.atype, row.data.as_str()), (1003, "{json}"))
        }
        other => panic!("asked {:?}", other),
    }
    let j = document(step(flow, Event::Done));
    assert_eq!(text(entry(&j, "challenge")), challenge);
    assert_eq!(text(entry(entry(&j, "user"), "displayName")), "User");
    match entry(&j, "excludeCredentials") {
        Json::Array(items) => assert_eq!(text(entry(&items[0], "id")), "AAAA"),
        _ => panic!("no array"),
    }
}

#[test]
fn users_without_a_name_show_their_address() {
    let mut u = user();
    assert_eq!(display_name(&u), "User");
    u.name = Some(String::new());
    assert_eq!(display_name(&u), "user@example.com");
    u.name = None;
    assert_eq!(display_name(&u), "user@example.com");
}

fn sha256(data: &[u8]) -> Vec<u8> {
    <sha2::Sha256 as sha2::Digest>::digest(data).to_vec()
}

/// The answer of an authenticator that makes the credential `id`.
fn device(id: &[u8]) -> RegisterPublicKeyCredential {
    let n = |i: i64| ciborium::Value::Integer(i.into());
    let t = |x: &str| ciborium::Value::Text(s(x));
    let mut cose: Vec<u8> = Vec::new();
    let point = vec![
        (n(1), n(2)),
        (n(3), n(-7)),
        (n(-1), n(1)),
        (n(-2), ciborium::Value::Bytes(vec![1; 32])),
        (n(-3), ciborium::Value::Bytes(vec![2; 32])),
    ];
    ciborium::into_writer(&ciborium::Value::Map(point), &mut cose).unwrap();
    let mut auth = sha256(b"vault.example.com");
    auth.push(0x41);
    auth.extend_from_slice(&[0, 0, 0, 1]);
    auth.extend_from_slice(&[0; 16]);
    auth.extend_from_slice(&[0, id.len() as u8]);
    auth.extend_from_slice(id);
    auth.extend_from_slice(&cose);
    let mut object: Vec<u8> = Vec::new();
    let map = vec![(t("fmt"), t("none")), (t("authData"), ciborium::Value::Bytes(auth))];
    ciborium::into_writer(&ciborium::Value::Map(map), &mut object).unwrap();
    RegisterPublicKeyCredential {
        id: b64(id),
        raw_id: b64(id),
        response: AuthenticatorAttestationResponse {
            attestation_object: b64(&object),
            client_data_json: b64(b"client data"),
        },
        type_: s("public-key"),
    }
}

fn enable_key(id: NumberOrString, name: &str, cred: &[u8]) -> EnableWebauthnData {
    EnableWebauthnData {
        id,
        name: s(name),
        device_response: device(cred),
        master_password_hash: Some(s("hash")),
        otp: None,
    }
}

fn echoed(type_: &str) -> Event {
    Event::ClientData(Some(ClientData {
        type_: s(type_),
        challenge: b64(b"challenge"),
        origin: s(BASE),
    }))
}

/// Runs a registration up to the point where the registrations of the user are asked for.
fn registering(slot: i64, cred: &[u8]) -> Step {
    let data = enable_key(NumberOrString::Number(slot), "My key", cred);
    let (flow, action) = asked(unlocked(activate_webauthn(BASE, s("u"), data)));
    asks_row(action, 1003);
    let (flow, action) = asked(step(flow, Event::Row(Some(row(1003, "{}")))));
    assert!(matches!(action, Action::ReadRegisterChallenge { .. }));
    let state = RegisterChallengeState { challenge: b64(b"challenge"), user_handle: s("") };
    let (flow, action) = asked(step(flow, Event::RegisterChallenge(Some(state))));
    assert!(matches!(action, Action::Write(Write::DeleteType { atype: 1003, .. })));
    let (flow, action) = asked(step(flow, Event::Done));
    match action {
        Action::ReadClientData { bytes } => assert_eq!(bytes, b"client data".to_vec()),
        other => panic!("asked {:?}", other),
    }
    step(flow, echoed("webauthn.create"))
}

#[test]
fn key_is_registered_in_its_slot() {
    let (flow, action) = asked(registering(2, b"new"));
    asks_row(action, 7);
    let (flow, _) = asked(step(flow, Event::Row(Some(row(7, "[]")))));
    let had = vec![key(3, "c"), key(2, "b"), key(1, "a")];
    let (flow, action) = asked(step(flow, Event::Registrations(Some(had))));
    match action {
        Action::Encode(Payload::Registrations(all)) => {
            let ids: Vec<i32> = all.iter().map(|r| r.id).collect();
            assert_eq!(ids, vec![1, 2, 3]);
            assert_eq!(all[1].name, "My key");
            assert_eq!(all[1].credential.cred_id, b64(b"new"));
            assert_eq!(all[1].credential.sign_count, 1);
        }
        other => panic!("asked {:?}", other),
    }
    let (flow, action) = asked(step(flow, Event::Text(s("{json}"))));
    assert!(matches!(action, Action::Write(Write::DeleteType { atype: 7, .. })));
    let (flow, action) = asked(step(flow, Event::Done));
    assert!(matches!(action, Action::Write(Write::Insert { .. })));
    let j = document(recovery_is_issued(step(flow, Event::Done)));
    assert_eq!(text(entry(&j, "object")), "twoFactorU2f");
    assert!(is_true(entry(&j, "enabled")));
}

#[test]
fn registration_can_fail() {
    let start = |id: NumberOrString, name: &str| {
        failed(unlocked(activate_webauthn(BASE, s("u"), enable_key(id, name, b"new"))))
    };
    assert_eq!(start(NumberOrString::String(s("x")), "n"), "Invalid WebAuthn key id");
    assert_eq!(start(NumberOrString::Number(0), "n"), "WebAuthn key id must be between 1 and 5");
    assert_eq!(start(NumberOrString::Number(6), "n"), "WebAuthn key id must be between 1 and 5");
    assert_eq!(start(NumberOrString::Number(1), " \t"), "WebAuthn key name is required");

    let data = || enable_key(NumberOrString::Number(1), "n", b"new");
    let (flow, _) = asked(unlocked(activate_webauthn(BASE, s("u"), data())));
    assert_eq!(failed(step(flow, Event::Row(None))), "Can't recover challenge");
    let (flow, _) = asked(unlocked(activate_webauthn(BASE, s("u"), data())));
    let (flow, _) = asked(step(flow, Event::Row(Some(row(1003, "{")))));
    assert_eq!(failed(step(flow, Event::RegisterChallenge(None))), "Can't recover challenge");

    // Client data that is no base64 is refused once the challenge is gone.
    let mut unreadable = data();
    unreadable.device_response.response.client_data_json = s("!");
    let (flow, _) = asked(unlocked(activate_webauthn(BASE, s("u"), unreadable)));
    let (flow, _) = asked(step(flow, Event::Row(Some(row(1003, "{}")))));
    let state = RegisterChallengeState { challenge: b64(b"challenge"), user_handle: s("") };
    let (flow, _) = asked(step(flow, Event::RegisterChallenge(Some(state))));
    assert_eq!(failed(step(flow, Event::Done)), "Invalid base64url encoding");

    let (flow, _) = asked(registering(1, b"new"));
    let (flow, _) = asked(step(flow, Event::Row(Some(row(7, "[]")))));
    let had = vec![key(2, &b64(b"new"))];
    assert_eq!(
        failed(step(flow, Event::Registrations(Some(had)))),
        "WebAuthn credential already registered"
    );
}

#[test]
fn at_most_five_keys() {
    let four = || vec![key(1, "a"), key(2, "b"), key(3, "c"), key(4, "d")];
    let all = merge_registration(four(), key(5, "e")).unwrap();
    assert_eq!(all.len(), 5);
    assert_eq!(merge_registration(all, key(5, "f")).unwrap().len(), 5);
    let mut six = four();
    six.push(key(8, "e"));
    six.push(key(9, "f"));
    match merge_registration(six, key(5, "g")) {
        Err(e) => assert_eq!(words(e), "Maximum of 5 WebAuthn keys allowed"),
        Ok(_) => panic!("accepted"),
    }
    assert_eq!(find_slot(&four(), 3), Some(2));
    assert_eq!(find_slot(&four(), 9), None);
}

#[test]
fn key_is_dropped() {
    let data = |id: NumberOrString| DeleteWebauthnData { id, master_password_hash: s("hash") };
    let slot = |n: i64| NumberOrString::Number(n);
    assert_eq!(
        failed(unlocked(delete_webauthn(s("u"), data(NumberOrString::String(s("x")))))),
        "Invalid WebAuthn key id"
    );
    let (flow, action) = asked(unlocked(delete_webauthn(s("u"), data(slot(2)))));
    asks_row(action, 7);
    assert_eq!(failed(step(flow, Event::Row(None))), "Webauthn data not found!");
    let loaded = |n: i64, keys: Option<Vec<WebauthnRegistration>>| {
        let (flow, _) = asked(unlocked(delete_webauthn(s("u"), data(slot(n)))));
        let (flow, _) = asked(step(flow, Event::Row(Some(row(7, "[]")))));
        step(flow, Event::Registrations(keys))
    };
    assert_eq!(failed(loaded(2, None)), "Could not decode WebAuthn 2FA data");
    assert_eq!(failed(loaded(2, Some(vec![key(1, "a")]))), "Webauthn entry not found");
    let (flow, action) = asked(loaded(2, Some(vec![key(1, "a"), key(2, "b")])));
    match action {
        Action::Encode(Payload::Registrations(left)) => {
            assert_eq!(left.len(), 1);
            assert_eq!(left[0].id, 1);
        }
        other => panic!("asked {:?}", other),
    }
    let (flow, _) = asked(step(flow, Event::Text(s("{json}"))));
    let (flow, _) = asked(step(flow, Event::Done));
    assert!(is_true(entry(&document(step(flow, Event::Done)), "enabled")));

    // With the last key the record goes.
    let (flow, action) = asked(loaded(2, Some(vec![key(2, "b")])));
    assert!(matches!(action, Action::Write(Write::DeleteType { atype: 7, .. })));
    let (flow, action) = asked(step(flow, Event::Done));
    assert!(matches!(action, Action::Query(Query::Providers { .. })));
    let (flow, _) = asked(step(flow, Event::Rows(vec![])));
    assert!(!is_true(entry(&document(step(flow, Event::Done)), "enabled")));
}

#[test]
fn login_options_are_stored() {
    let (flow, action) = asked(generate_webauthn_login_options(BASE, s("u")));
    asks_row(action, 7);
    assert_eq!(failed(step(flow, Event::Row(None))), "No Webauthn devices registered");
    let (flow, _) = asked(generate_webauthn_login_options(BASE, s("u")));
    let (flow, _) = asked(step(flow, Event::Row(Some(row(7, "[]")))));
    let (flow, action) = asked(step(flow, Event::Registrations(Some(vec![key(1, "a")]))));
    let challenge = match action {
        Action::Encode(Payload::LoginChallenge(state)) => {
            assert_eq!(state.allow_credential_ids, vec!["a"]);
            state.challenge
        }
        other => panic!("asked {:?}", other),
    };
    let (flow, _) = asked(step(flow, Event::Text(s("{json}"))));
    let (flow, action) = asked(step(flow, Event::Done));
    assert!(matches!(action, Action::Write(Write::Insert { .. })));
    let j = document(step(flow, Event::Done));
    assert_eq!(text(entry(&j, "challenge")), challenge);
}

/// Runs a login up to its registrations.
fn logging_in(enabled: bool, keys: Vec<WebauthnRegistration>) -> Step {
    let (flow, action) = asked(validate_webauthn_login(BASE, s("u"), s("{assertion}")));
    asks_row(action, 1004);
    let (flow, _) = asked(step(flow, Event::Row(Some(row(1004, "{}")))));
    let state = LoginChallengeState {
        challenge: b64(b"challenge"),
        allow_credential_ids: vec![b64(b"one")],
    };
    let (flow, action) = asked(step(flow, Event::LoginChallenge(Some(state))));
    assert!(matches!(action, Action::Write(Write::DeleteType { atype: 1004, .. })));
    let (flow, action) = asked(step(flow, Event::Done));
    asks_row(action, 7);
    let mut stored = row(7, "[]");
    stored.enabled = enabled;
    let (flow, _) = asked(step(flow, Event::Row(Some(stored))));
    step(flow, Event::Registrations(Some(keys)))
}

fn login_assertion() -> PublicKeyCredentialAssertion {
    let mut auth = sha256(b"vault.example.com");
    auth.push(1);
    auth.extend_from_slice(&[0, 0, 0, 9]);
    PublicKeyCredentialAssertion {
        id: b64(b"one"),
        raw_id: b64(b"one"),
        response: AuthenticatorAssertionResponse {
            authenticator_data: b64(&auth),
            client_data_json: b64(b"client data"),
            signature: b64(b"signature"),
            user_handle: None,
        },
        type_: s("public-key"),
    }
}

#[test]
fn login_with_a_key() {
    let (flow, action) = asked(logging_in(true, vec![key(1, &b64(b"one"))]));
    match action {
        Action::ReadAssertion { text } => assert_eq!(text, "{assertion}"),
        other => panic!("asked {:?}", other),
    }
    let (flow, action) = asked(step(flow, Event::Assertion(Some(login_assertion()))));
    assert!(matches!(action, Action::ReadClientData { .. }));
    let (flow, action) = asked(step(flow, echoed("webauthn.get")));
    match action {
        Action::VerifySignature { public_key, signed, signature } => {
            assert_eq!(b64(&public_key), "BAAA");
            assert_eq!(signature, b"signature".to_vec());
            assert_eq!(signed.len(), 37 + 32);
            assert_eq!(signed[37..].to_vec(), sha256(b"client data"));
        }
        other => panic!("asked {:?}", other),
    }
    let (flow, action) = asked(step(flow, Event::Done));
    match action {
        Action::Encode(Payload::Registrations(all)) => {
            assert_eq!(all[0].credential.sign_count, 9)
        }
        other => panic!("asked {:?}", other),
    }
    let (flow, action) = asked(step(flow, Event::Text(s("{json}"))));
    assert!(matches!(action, Action::Write(Write::DeleteType { atype: 7, .. })));
    let (flow, _) = asked(step(flow, Event::Done));
    assert!(matches!(step(flow, Event::Done), Step::Done(Ok(Reply::Done))));
}

#[test]
fn login_with_a_key_can_fail() {
    let (flow, _) = asked(validate_webauthn_login(BASE, s("u"), s("{}")));
    assert_eq!(failed(step(flow, Event::Row(None))), "Can't recover login challenge");
    let (flow, _) = asked(validate_webauthn_login(BASE, s("u"), s("{}")));
    let (flow, _) = asked(step(flow, Event::Row(Some(row(1004, "{")))));
    assert_eq!(failed(step(flow, Event::LoginChallenge(None))), "Can't recover login challenge");
    assert_eq!(failed(logging_in(true, vec![])), "WebAuthn 2FA not configured");
    assert_eq!(
        failed(logging_in(false, vec![key(1, &b64(b"one"))])),
        "WebAuthn 2FA not configured"
    );
    let (flow, _) = asked(logging_in(true, vec![key(1, &b64(b"one"))]));
    assert_eq!(failed(step(flow, Event::Assertion(None))), "Invalid WebAuthn assertion");
    let (flow, _) = asked(logging_in(true, vec![key(1, &b64(b"one"))]));
    let mut unreadable = login_assertion();
    unreadable.response.client_data_json = s("!");
    assert_eq!(
        failed(step(flow, Event::Assertion(Some(unreadable)))),
        "Invalid base64url encoding"
    );
    let (flow, _) = asked(logging_in(true, vec![key(1, &b64(b"one"))]));
    let (flow, _) = asked(step(flow, Event::Assertion(Some(login_assertion()))));
    assert_eq!(failed(step(flow, echoed("webauthn.create"))), "Invalid clientData type");
    let (flow, _) = asked(logging_in(true, vec![key(1, &b64(b"one"))]));
    let (flow, _) = asked(step(flow, Event::Assertion(Some(login_assertion()))));
    let (flow, _) = asked(step(flow, echoed("webauthn.get")));
    let bad = AppError::BadRequest(Refusal::Other { message: s("Invalid signature") });
    assert_eq!(failed(step(flow, Event::Failed(bad))), "Invalid signature");
    let mut used = key(1, &b64(b"one"));
    used.credential.sign_count = 9;
    let (flow, _) = asked(logging_in(true, vec![used]));
    let (flow, _) = asked(step(flow, Event::Assertion(Some(login_assertion()))));
    let (flow, _) = asked(step(flow, echoed("webauthn.get")));
    assert_eq!(failed(step(flow, Event::Done)), "WebAuthn signature counter mismatch");
}

#[test]
fn types_of_the_records_are_numbered() {
    assert_eq!(TwoFactorType::WebauthnRegisterChallenge.to_i32(), 1003);
    assert_eq!(TwoFactorType::WebauthnLoginChallenge.to_i32(), 1004);
}

#[test]
fn put_is_the_same_as_post() {
    let disable =
        DisableTwoFactorData { master_password_hash: Some(s("hash")), otp: None, type_: 1 };
    let (_, action) = asked(unlocked(disable_twofactor_put(s("u"), disable)));
    assert!(matches!(action, Action::Write(Write::DeleteType { atype: 1, .. })));
    let keys = yubikeys([None, None, None, None, None]);
    assert_eq!(
        failed(step(
            asked(unlocked(activate_yubikey_put(yubico_settings(), s("u"), keys))).0,
            Event::Row(None)
        )),
        "At least one YubiKey OTP is required"
    );
    let data = enable_key(NumberOrString::Number(9), "n", b"new");
    assert_eq!(
        failed(unlocked(activate_webauthn_put(BASE, s("u"), data))),
        "WebAuthn key id must be between 1 and 5"
    );
}

#[test]
fn requests_without_a_relying_party_are_refused() {
    let refused = || Err(AppError::BadRequest(Refusal::BaseUrlInvalid));
    let requests = vec![
        PartyRequest::Show { user_id: s("u"), data: password() },
        PartyRequest::Challenge { user_id: s("u"), data: password() },
        PartyRequest::Activate {
            user_id: s("u"),
            body: enable_key(NumberOrString::Number(1), "n", b"new"),
        },
        PartyRequest::LoginOptions { user_id: s("u") },
        PartyRequest::Login { user_id: s("u"), assertion_json: s("{}") },
    ];
    for request in requests {
        assert_eq!(
            failed(serve(refused(), request)),
            "BASE_URL is not a valid URL (required for WebAuthn 2FA)"
        );
    }
}

#[test]
fn record_is_dropped_for_its_key() {
    let (_, action) = asked(drop_record(Some(row(0, "KEY")), s("u"), "KEY", 0));
    assert!(matches!(action, Action::Write(Write::DeleteRow { .. })));
    assert_eq!(
        failed(drop_record(Some(row(0, "KEY")), s("u"), "key", 0)),
        "TOTP key does not match recorded value"
    );
    assert_eq!(failed(drop_record(None, s("u"), "KEY", 0)), "TOTP not configured");
}

#[test]
fn public_ids_are_sorted_without_repetition() {
    assert_eq!(sorted_keys(vec![s("b"), s("a"), s("b")]), vec!["a", "b"]);
    assert!(sorted_keys(vec![]).is_empty());
}

#[test]
fn dropping_a_key_undoes_registering_it() {
    let had = || vec![key(1, "a"), key(3, "c")];
    let mut all = merge_registration(had(), key(2, "b")).unwrap();
    let at = find_slot(&all, 2).unwrap();
    all.remove(at);
    let ids: Vec<(i32, String)> = all.iter().map(|r| (r.id, r.name.clone())).collect();
    let before: Vec<(i32, String)> = had().iter().map(|r| (r.id, r.name.clone())).collect();
    assert_eq!(ids, before);
}

#[test]
fn records_are_stored_where_they_were_made() {
    let made = || Ok(row(7, "[]"));
    let none = || Err(AppError::Internal);
    let (_, action) = asked(store_made(made(), Upkeep::Nothing, Ok(Reply::Done)));
    assert!(matches!(action, Action::Write(Write::DeleteType { atype: 7, .. })));
    assert_eq!(failed(store_made(none(), Upkeep::Nothing, Ok(Reply::Done))), "internal");
    let (flow, action) = asked(put_key(Ok(row(0, "KEY")), s("u"), "KEY", 9));
    assert!(matches!(action, Action::Write(Write::DeleteTypes { first: 0, second: 5, .. })));
    match asked(step(flow, Event::Done)).1 {
        Action::Write(Write::Insert { row }) => assert_eq!((row.last_used, row.data.as_str()), (9, "KEY")),
        other => panic!("asked {:?}", other),
    }
    assert_eq!(failed(put_key(none(), s("u"), "KEY", 9)), "internal");
    let (flow, action) = asked(store_challenge(Ok(row(1000, "{}")), s("a@b"), s("123456")));
    assert!(matches!(action, Action::Write(Write::Insert { .. })));
    match asked(step(flow, Event::Done)).1 {
        Action::SendToken { to, token } => assert_eq!((to.as_str(), token.as_str()), ("a@b", "123456")),
        other => panic!("asked {:?}", other),
    }
    assert_eq!(failed(store_challenge(none(), s("a@b"), s("123456"))), "internal");
}
