//! How far a two-factor request has come, and what comes next.
use crate::error::AppError;
use crate::exchange::{Action, Reply};
use crate::json::{Json, JsonView};
use crate::models::twofactor::{EmailTokenData, NumberOrString, TwoFactorType};
use crate::models::user::{PasswordOrOtpData, User};
use crate::store::Write;
use crate::webauthn::{
    LoginChallengeState, PublicKeyCredentialAssertion, RegisterChallengeState,
    RegisterPublicKeyCredential, RelyingParty, SignatureCheck, StoredCredential,
    WebauthnRegistration,
};
use crate::yubico::{OtpCheck, YubicoSettings};
use vstd::prelude::*;

verus! {

/// What comes next in a request.
#[derive(Debug)]
pub enum Step {
    /// Perform the action, and go on from here with what is answered.
    Ask(Flow, Action),
    /// The request is over.
    Done(Result<Reply, AppError>),
}

/// What a signed-in user asks for, to be done once they have confirmed it with their password.
#[derive(Debug)]
pub enum Goal {
    GetAuthenticator { user_id: String },
    ActivateAuthenticator { user_id: String, key: String, token: String },
    Disable { user_id: String, type_: i32 },
    DisableAuthenticator { user_id: String, key: String, type_: i32 },
    GetRecover,
    GetEmail { user_id: String },
    SendEmail { user_id: String, email: String },
    ActivateEmail { user_id: String, email: String, token: String },
    GetYubikey { user_id: String },
    ActivateYubikey { job: YubikeyJob },
    GetWebauthn { user_id: String },
    GetWebauthnChallenge { user_id: String, rp: RelyingParty },
    ActivateWebauthn {
        user_id: String,
        rp: RelyingParty,
        id: NumberOrString,
        name: String,
        device_response: RegisterPublicKeyCredential,
    },
    DeleteWebauthn { user_id: String, id: NumberOrString },
}

/// How far a request has come: which answer it waits for.
#[derive(Debug)]
pub enum Flow {
    /// The records of a user who lists their providers.
    ListingProviders,
    /// The account of a signed-in user.
    FindingUser { credentials: PasswordOrOtpData, goal: Goal },
    /// Whether the password of a signed-in user is right.
    CheckingPassword { user: User, goal: Goal },
    /// The account of someone who logs in.
    FindingLogin { password_hash: Option<String> },
    /// Whether the password of someone who logs in is right.
    CheckingLogin { user_id: String },
    Totp(TotpFlow),
    Email(EmailFlow),
    Yubikey(YubikeyFlow),
    Webauthn(WebauthnFlow),
    Commit(Commit),
}

/// How far a request about time-based codes has come.
#[derive(Debug)]
pub enum TotpFlow {
    /// The record to show.
    Showing,
    /// A new key to show.
    Making,
    /// The bytes of the key to be activated.
    Decoding { user_id: String, key: String, token: String },
    /// The record that the key will replace.
    Finding { user_id: String, key: String, token: String },
    /// The time step of the code.
    Validating { user_id: String, key: String },
    /// The record to be dropped.
    Disabling { user_id: String, key: String, type_: i32 },
}

/// How far a request about emailed codes has come.
#[derive(Debug)]
pub enum EmailFlow {
    /// The record to show.
    Showing,
    /// The data of the record to show.
    ShowingData,
    /// That earlier records are gone.
    Clearing { user_id: String, email: String },
    /// The code to send.
    Issuing { user_id: String, email: String },
    /// The data of the record to store.
    Storing { user_id: String, email: String, token: String },
    /// The record of the code that was sent.
    Proving { user_id: String, email: String, token: String },
    /// The data of the record of the code that was sent.
    ProvingData { user_id: String, uuid: String, email: String, token: String },
    /// The data of the record to store.
    Enabling { user_id: String, uuid: String, reply: Json },
    /// The record of someone who asks for a login code.
    LoginFinding,
    /// The data of their record.
    LoginReading { uuid: String },
    /// The code to send them.
    LoginIssuing { uuid: String, data: EmailTokenData },
    /// The data of their record, with the code.
    LoginStoring { uuid: String, to: String, token: String },
    /// The data under which someone logs in with a code.
    CodeReading { user_id: String, token: String },
    /// Their record.
    CodeFinding { token: String, data: EmailTokenData },
    /// The data of their record, after the attempt.
    CodeStoring { uuid: String, end: Result<Reply, AppError> },
}

/// The activation of YubiKeys.
#[derive(Debug)]
pub struct YubikeyJob {
    pub user_id: String,
    pub settings: YubicoSettings,
    /// What the client sent and was not looked at yet.
    pub rest: Vec<String>,
    /// The public ids of the keys that were accepted.
    pub keys: Vec<String>,
    /// The public ids of the keys that the user has registered already.
    pub known: Vec<String>,
    pub nfc: bool,
}

/// How far a request about YubiKeys has come.
#[derive(Debug)]
pub enum YubikeyFlow {
    /// The record to show.
    Showing,
    /// The data of the record to show.
    ShowingData,
    /// The record of the keys that the user has registered already.
    Recalling { job: YubikeyJob },
    /// The data of that record.
    RecallingData { job: YubikeyJob },
    /// A one-time password is being verified.
    Verifying { job: YubikeyJob, otp: String, check: OtpCheck },
}

/// What the registrations of a user are loaded for.
#[derive(Debug)]
pub enum WebauthnGoal {
    Show,
    Challenge { user_id: String, rp: RelyingParty, user: User },
    Register { user_id: String, slot: i32, name: String, credential: StoredCredential },
    LoginOptions { user_id: String, rp: RelyingParty },
    Login {
        user_id: String,
        rp: RelyingParty,
        assertion_json: String,
        state: LoginChallengeState,
    },
}

/// A registration that is being finished.
#[derive(Debug)]
pub struct RegistrationJob {
    pub user_id: String,
    pub rp: RelyingParty,
    pub slot: i32,
    pub name: String,
    pub device_response: RegisterPublicKeyCredential,
}

/// How far a request about WebAuthn keys has come.
#[derive(Debug)]
pub enum WebauthnFlow {
    /// The record that holds the registrations.
    Loading { goal: WebauthnGoal },
    /// The registrations.
    Reading { enabled: bool, goal: WebauthnGoal },
    /// The record of the registration challenge.
    Recalling { job: RegistrationJob },
    /// The registration challenge.
    RecallingData { job: RegistrationJob },
    /// That the registration challenge is gone.
    Forgetting { job: RegistrationJob, challenge: RegisterChallengeState },
    /// The client data of the registration.
    Registering { job: RegistrationJob, challenge: RegisterChallengeState },
    /// The record of the login challenge.
    LoginRecalling { user_id: String, rp: RelyingParty, assertion_json: String },
    /// The login challenge.
    LoginRecallingData { user_id: String, rp: RelyingParty, assertion_json: String },
    /// That the login challenge is gone.
    LoginForgetting {
        user_id: String,
        rp: RelyingParty,
        assertion_json: String,
        state: LoginChallengeState,
    },
    /// The assertion of the login.
    LoginAsserting {
        user_id: String,
        rp: RelyingParty,
        state: LoginChallengeState,
        registrations: Vec<WebauthnRegistration>,
    },
    /// The client data of the login.
    LoginChecking {
        user_id: String,
        rp: RelyingParty,
        state: LoginChallengeState,
        registrations: Vec<WebauthnRegistration>,
        assertion: PublicKeyCredentialAssertion,
    },
    /// That the signature of the login is good.
    LoginVerifying {
        user_id: String,
        registrations: Vec<WebauthnRegistration>,
        check: SignatureCheck,
    },
    /// The record that holds the registration to be dropped.
    Deleting { user_id: String, slot: i32 },
    /// The registrations, one of which is to be dropped.
    DeletingData { user_id: String, slot: i32 },
}

/// What is seen to after the changes of a request.
#[derive(Debug)]
pub enum Upkeep {
    Nothing,
    /// The user has a recovery code.
    IssueRecovery { user_id: String },
    /// A user without providers has no recovery code.
    ClearRecovery { user_id: String },
    /// A code is emailed.
    Mail { to: String, token: String },
}

/// How far the changes of a request have come.
#[derive(Debug)]
pub enum Commit {
    /// The data of a record that will be put in the place of those of its type.
    Saving {
        user_id: String,
        atype: TwoFactorType,
        upkeep: Upkeep,
        end: Result<Reply, AppError>,
    },
    /// That a change was made. `writes` are still to come.
    Writing { writes: Vec<Write>, upkeep: Upkeep, end: Result<Reply, AppError> },
    /// The recovery code that the user has.
    ReadingRecovery { user_id: String, end: Result<Reply, AppError> },
    /// A new recovery code.
    MakingRecovery { user_id: String, end: Result<Reply, AppError> },
    /// The providers that the user has left.
    CountingProviders { user_id: String, end: Result<Reply, AppError> },
    /// That the last action was performed.
    Finishing { end: Result<Reply, AppError> },
}

/// Whether a request is over with this error.
pub open spec fn fails(out: Step, e: AppError) -> bool {
    out == Step::Done(Err(e))
}

/// Whether a request is over with this document.
pub open spec fn replies(out: Step, document: JsonView) -> bool {
    out matches Step::Done(Ok(Reply::Json(j))) && j@ == document
}

/// Whether a request will end with this document.
pub open spec fn will_reply(end: Result<Reply, AppError>, document: JsonView) -> bool {
    end matches Ok(Reply::Json(j)) && j@ == document
}

/// The end of a request with an error.
pub fn fail(e: AppError) -> (out: Step)
    ensures
        fails(out, e),
{
    Step::Done(Err(e))
}

/// The end of a request with a document.
pub fn reply(document: Json) -> (out: Step)
    ensures
        replies(out, document@),
{
    Step::Done(Ok(Reply::Json(document)))
}

} // verus!
