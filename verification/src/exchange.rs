//! What a request asks of the outside world, and what it is answered.
//!
//! A request is worked on in steps. Each step asks for one `Action`; whoever runs the request
//! performs it and hands back an `Event`.
use crate::error::AppError;
use crate::json::Json;
use crate::models::twofactor::{EmailTokenData, TwoFactor, YubikeyMetadata};
use crate::models::user::User;
use crate::store::{Query, Write};
use crate::webauthn::{
    ClientData, LoginChallengeState, PublicKeyCredentialAssertion, RegisterChallengeState,
    WebauthnRegistration,
};
use vstd::prelude::*;

verus! {

/// A value to be written as JSON.
#[derive(Debug)]
pub enum Payload {
    EmailToken(EmailTokenData),
    Yubikey(YubikeyMetadata),
    Registrations(Vec<WebauthnRegistration>),
    RegisterChallenge(RegisterChallengeState),
    LoginChallenge(LoginChallengeState),
}

/// Something to be done outside.
#[derive(Debug)]
pub enum Action {
    /// Ask the database. Answered with `User`, `Row`, `Rows` or `RecoveryCode`.
    Query(Query),
    /// Change the database. Answered with `Done`.
    Write(Write),
    /// Find the account with this email address. Answered with `User`.
    FindUserByEmail { email: String },
    /// Check the password of an account. Answered with `Password`.
    VerifyPassword { user_id: String, password_hash: String },
    /// Read a text as base32. Answered with `Bytes`.
    DecodeBase32 { text: String },
    /// Check a time-based code against a key, and against the last step that was used. Answered
    /// with `Step`, the step of the code.
    ValidateTotp { token: String, key: String, last_used: i64 },
    /// Make a key for time-based codes. Answered with `Text`.
    NewTotpSecret,
    /// Make a code to be emailed. Answered with `Text`.
    NewEmailToken { digits: usize },
    /// Make a recovery code. Answered with `Text`.
    NewRecoveryCode,
    /// Write a value as JSON. Answered with `Text`.
    Encode(Payload),
    /// Read JSON. Answered with `EmailToken`.
    ReadEmailToken { text: String },
    /// Read JSON. Answered with `Yubikey`.
    ReadYubikey { text: String },
    /// Read JSON. Answered with `Registrations`.
    ReadRegistrations { text: String },
    /// Read JSON. Answered with `RegisterChallenge`.
    ReadRegisterChallenge { text: String },
    /// Read JSON. Answered with `LoginChallenge`.
    ReadLoginChallenge { text: String },
    /// Read JSON. Answered with `Assertion`.
    ReadAssertion { text: String },
    /// Read JSON. Answered with `ClientData`.
    ReadClientData { bytes: Vec<u8> },
    /// Verify an ES256 signature. Answered with `Done` where it is good.
    VerifySignature { public_key: Vec<u8>, signed: Vec<u8>, signature: Vec<u8> },
    /// Compute HMAC-SHA-1. Answered with `Bytes`.
    HmacSha1 { secret: Vec<u8>, message: String },
    /// Fetch a URL. Answered with `Answer`.
    Fetch { url: String },
    /// Email a code. Answered with `Done`.
    SendToken { to: String, token: String },
}

/// What was answered to an action.
#[derive(Debug)]
pub enum Event {
    /// The action failed, and the request with it.
    Failed(AppError),
    /// The action was performed.
    Done,
    /// The account, if there is one.
    User(Option<User>),
    /// Whether the password was right.
    Password(bool),
    /// The first record, if there is one.
    Row(Option<TwoFactor>),
    /// The records.
    Rows(Vec<TwoFactor>),
    /// The recovery code, of the account if there is one.
    RecoveryCode(Option<Option<String>>),
    Text(String),
    Bytes(Vec<u8>),
    Step(i64),
    /// What was read, if it could be.
    EmailToken(Option<EmailTokenData>),
    Yubikey(Option<YubikeyMetadata>),
    Registrations(Option<Vec<WebauthnRegistration>>),
    RegisterChallenge(Option<RegisterChallengeState>),
    LoginChallenge(Option<LoginChallengeState>),
    Assertion(Option<PublicKeyCredentialAssertion>),
    ClientData(Option<ClientData>),
    Answer { status: u16, body: String },
}

/// What a request that succeeds is answered with.
#[derive(Debug)]
pub enum Reply {
    /// Success, and nothing more.
    Done,
    Json(Json),
}

} // verus!
