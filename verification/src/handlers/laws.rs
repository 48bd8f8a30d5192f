//! What requests that succeed have done, from their first step to their last.
use super::flow::{
    Commit, EmailFlow, Flow, Goal, RegistrationJob, Step, WebauthnFlow, WebauthnGoal, YubikeyFlow,
    YubikeyJob,
};
use super::gate::Run;
use super::totp;
use super::yubikey::{Scan, PUBLIC_ID_LEN};
use crate::error::{AppError, Refusal};
use crate::exchange::{Action, Event, Payload, Reply};
use crate::handlers;
use crate::models::twofactor::{EmailTokenData, TwoFactor, TwoFactorType, YubikeyMetadata};
use crate::models::user::{PasswordOrOtpData, User};
use crate::store::{Query, Write};
use crate::webauthn::{
    ClientData, LoginChallengeState, PublicKeyCredentialAssertion, RegisterChallengeState,
    RelyingParty, SignatureCheckView, WebauthnRegistration,
};
use crate::yubico::OtpStep;
use crate::sorting::Ranked;
use crate::{outside, sorting, store, text, webauthn, yubico};
use vstd::prelude::*;

verus! {

broadcast use vstd::string::group_string_axioms;

/// The step of a run that an answer led to.
proof fn lemma_step(run: Run, i: int)
    requires
        run.valid(),
        0 <= i < run.events.len(),
    ensures
        handlers::gate::next(
            run.flows[i],
            run.events[i],
            Step::Ask(run.flows[i + 1], run.actions[i + 1]),
        ),
{
    let event = run.events[i];
}

/// What a user gave to have a TOTP key activated, and what came of it.
pub struct TotpActivation {
    pub existing: Option<TwoFactor>,
    pub key: String,
    pub step: i64,
    pub delete: Write,
    pub insert: Write,
}

/// Whether a run went as the activation of a TOTP key does: the key, in upper case, was decoded to
/// its twenty bytes; the code was found to be good for the key and newer than the last one used; and
/// then the record was replaced, remembered devices were dropped, and the time step of the code was
/// kept.
pub open spec fn went_as_totp_activation(
    run: Run,
    user_id: String,
    key: Seq<char>,
    token: String,
    story: TotpActivation,
) -> bool {
    &&& run.actions.len() >= 8
    &&& run.events[1] == Event::Password(true)
    &&& run.actions[2] == (Action::DecodeBase32 { text: story.key })
    &&& story.key@ == outside::uppercase_of(key)
    &&& run.events[2] matches Event::Bytes(bytes) && bytes@.len() == totp::KEY_LEN
    &&& run.events[3] == Event::Row(story.existing)
    &&& run.actions[4] == (Action::ValidateTotp {
        token,
        key: story.key,
        last_used: totp::last_used_of(story.existing),
    })
    &&& run.events[4] == Event::Step(story.step)
    &&& run.actions[5] == Action::Write(story.delete)
    &&& run.events[5] == Event::Done
    &&& run.actions[6] == Action::Write(story.insert)
    &&& run.events[6] == Event::Done
    &&& totp::activation(
        seq![story.delete].push(story.insert),
        user_id,
        story.key,
        story.step,
    )
}

/// A request that activates a TOTP key and succeeds has gone the whole way.
pub proof fn law_totp_activation_goes_all_the_way(
    run: Run,
    credentials: PasswordOrOtpData,
    user_id: String,
    key: String,
    token: String,
    event: Event,
    end: Result<Reply, AppError>,
) -> (story: TotpActivation)
    requires
        run.ends(event, end),
        run.flows[0] == (Flow::FindingUser {
            credentials,
            goal: Goal::ActivateAuthenticator { user_id, key, token },
        }),
        end is Ok,
    ensures
        went_as_totp_activation(run, user_id, key@, token, story),
        handlers::flow::will_reply(
            end,
            handlers::replies::authenticator_view(true, story.key@),
        ),
{
    let n = run.events.len();
    assert(handlers::gate::next(run.flows[n as int], event, Step::Done(end)));
    assert(n >= 1);
    lemma_step(run, 0);
    assert(n >= 2);
    lemma_step(run, 1);
    assert(n >= 3);
    lemma_step(run, 2);
    assert(n >= 4);
    lemma_step(run, 3);
    assert(n >= 5);
    lemma_step(run, 4);
    let upper = run.flows[2]->Totp_0->Decoding_key;
    let existing = run.events[3]->Row_0;
    let step = run.events[4]->Step_0;
    assert(totp::activated(user_id, upper, step, Step::Ask(run.flows[5], run.actions[5])));
    let (writes, ending) = totp::lemma_activated(
        user_id,
        upper,
        step,
        Step::Ask(run.flows[5], run.actions[5]),
    );
    assert(n >= 6);
    lemma_step(run, 5);
    assert(n >= 7);
    lemma_step(run, 6);
    assert(seq![writes[0]].push(writes[1]) =~= writes);
    handlers::gate::lemma_answer_is_kept(run, ending, 7, n as int);
    TotpActivation { existing, key: upper, step, delete: writes[0], insert: writes[1] }
}

/// Whether a run went as a login with an emailed code does: the code was the one that was sent, it
/// had not expired at `now`, and data without the code was stored before the answer.
pub open spec fn went_as_email_login(
    run: Run,
    token: Seq<char>,
    event: Event,
    data: EmailTokenData,
    row: TwoFactor,
    now: i64,
) -> bool {
    &&& run.actions.len() == 4
    &&& run.events[0] == Event::EmailToken(Some(data))
    &&& run.events[1] == Event::Row(Some(row))
    &&& data.last_token matches Some(issued) && issued@ == text::trimmed(token)
    &&& outside::clock_reading(now)
    &&& now <= data.token_sent + 600
    &&& run.actions[2] == Action::Encode(Payload::EmailToken(data.withdrawn()))
    &&& run.events[2] matches Event::Text(json) && run.actions[3] == Action::Write(
        Write::SetData { uuid: row.uuid, data: json },
    )
    &&& event == Event::Done
}

/// A login with an emailed code succeeds only with the code that was sent, in time, and once.
pub proof fn law_email_login_goes_all_the_way(
    run: Run,
    user_id: String,
    token: String,
    event: Event,
    end: Result<Reply, AppError>,
) -> (r: (EmailTokenData, TwoFactor, i64))
    requires
        run.ends(event, end),
        run.flows[0] == Flow::Email(EmailFlow::CodeReading { user_id, token }),
        end is Ok,
    ensures
        went_as_email_login(run, token@, event, r.0, r.1, r.2),
{
    let n = run.events.len();
    assert(handlers::gate::next(run.flows[n as int], event, Step::Done(end)));
    assert(n >= 1);
    lemma_step(run, 0);
    let data = run.events[0]->EmailToken_0->0;
    if n == 1 {
        let row = event->Row_0->0;
        let now = choose|now: i64|
            outside::clock_reading(now) && #[trigger] handlers::email::tries(
                data,
                token@,
                now,
                row.uuid,
                Step::Done(end),
            );
        assert(handlers::email::tries(data, token@, now, row.uuid, Step::Done(end)));
    }
    assert(n >= 2);
    lemma_step(run, 1);
    let row = run.events[1]->Row_0->0;
    let out = Step::Ask(run.flows[2], run.actions[2]);
    let now = choose|now: i64|
        outside::clock_reading(now) && #[trigger] handlers::email::tries(
            data,
            token@,
            now,
            row.uuid,
            out,
        );
    assert(handlers::email::tries(data, token@, now, row.uuid, out));
    assert(n >= 3);
    lemma_step(run, 2);
    if n > 3 {
        lemma_step(run, 3);
    }
    (data, row, now)
}

/// What a login with a WebAuthn key went through.
pub struct WebauthnLogin {
    pub state: LoginChallengeState,
    pub row: TwoFactor,
    pub registrations: Vec<WebauthnRegistration>,
    pub assertion: PublicKeyCredentialAssertion,
    pub client_data: Option<ClientData>,
    pub check: SignatureCheckView,
}

/// Whether a run went as a login with a WebAuthn key does: the challenge was used up; the provider
/// was enabled; the assertion passed every check against the challenge, the relying party and the
/// registrations; and the signature over what was asserted, under the key that was registered, was
/// found to be good.
pub open spec fn went_as_webauthn_login(
    run: Run,
    user_id: String,
    rp: RelyingParty,
    story: WebauthnLogin,
) -> bool {
    &&& run.actions.len() >= 9
    &&& run.events[1] == Event::LoginChallenge(Some(story.state))
    &&& run.actions[2] == Action::Write(
        Write::DeleteType { user_id, atype: TwoFactorType::WebauthnLoginChallenge.code() },
    )
    &&& run.events[2] == Event::Done
    &&& run.events[3] == Event::Row(Some(story.row))
    &&& story.row.enabled
    &&& run.events[4] == Event::Registrations(Some(story.registrations))
    &&& run.events[5] == Event::Assertion(Some(story.assertion))
    &&& run.events[6] == Event::ClientData(story.client_data)
    &&& webauthn::login_check(
        rp,
        story.state,
        story.registrations@,
        Some(story.assertion),
        story.client_data,
    ) == Ok::<SignatureCheckView, AppError>(story.check)
    &&& run.actions[7] matches Action::VerifySignature { public_key, signed, signature }
        && public_key@ == story.check.public_key && signed@ == story.check.signed && signature@
        == story.check.signature
    &&& run.events[7] == Event::Done
}

/// A login with a WebAuthn key succeeds only with a good signature over the challenge.
pub proof fn law_webauthn_login_goes_all_the_way(
    run: Run,
    user_id: String,
    rp: RelyingParty,
    assertion_json: String,
    event: Event,
    end: Result<Reply, AppError>,
) -> (story: WebauthnLogin)
    requires
        run.ends(event, end),
        run.flows[0] == Flow::Webauthn(
            WebauthnFlow::LoginRecalling { user_id, rp, assertion_json },
        ),
        end is Ok,
    ensures
        went_as_webauthn_login(run, user_id, rp, story),
{
    let n = run.events.len();
    assert(handlers::gate::next(run.flows[n as int], event, Step::Done(end)));
    assert(n >= 1);
    lemma_step(run, 0);
    assert(n >= 2);
    lemma_step(run, 1);
    let state = run.events[1]->LoginChallenge_0->0;
    assert(n >= 3);
    lemma_step(run, 2);
    let goal = WebauthnGoal::Login { user_id, rp, assertion_json, state };
    assert(run.flows[3] == Flow::Webauthn(WebauthnFlow::Loading { goal }));
    assert(n >= 4);
    lemma_step(run, 3);
    let row = run.events[3]->Row_0->0;
    assert(n >= 5);
    lemma_step(run, 4);
    let registrations = run.events[4]->Registrations_0->0;
    assert(n >= 6);
    lemma_step(run, 5);
    let assertion = run.events[5]->Assertion_0->0;
    assert(n >= 7);
    lemma_step(run, 6);
    let client_data = run.events[6]->ClientData_0;
    let check = webauthn::login_check(
        rp,
        state,
        registrations@,
        Some(assertion),
        client_data,
    )->Ok_0;
    assert(n >= 8);
    lemma_step(run, 7);
    WebauthnLogin { state, row, registrations, assertion, client_data, check }
}

/// Whether a run went as the registration of a WebAuthn key does, up to the registrations that the
/// key joins: the challenge was used up, and the credential of the client's answer was accepted for
/// that challenge.
pub open spec fn went_as_registration(
    run: Run,
    job: RegistrationJob,
    challenge: RegisterChallengeState,
    client_data: Option<ClientData>,
) -> bool {
    &&& run.events[1] == Event::RegisterChallenge(Some(challenge))
    &&& run.actions[2] == Action::Write(
        Write::DeleteType {
            user_id: job.user_id,
            atype: TwoFactorType::WebauthnRegisterChallenge.code(),
        },
    )
    &&& run.events[2] == Event::Done
    &&& run.events[3] == Event::ClientData(client_data)
    &&& webauthn::registered_credential(
        job.rp,
        challenge,
        job.device_response,
        client_data,
    ) is Ok
}

/// A key is registered only with an answer to the challenge that was stored for the user.
pub proof fn law_registration_answers_its_challenge(
    run: Run,
    job: RegistrationJob,
    event: Event,
    end: Result<Reply, AppError>,
) -> (r: (RegisterChallengeState, Option<ClientData>))
    requires
        run.ends(event, end),
        run.flows[0] == Flow::Webauthn(WebauthnFlow::Recalling { job }),
        end is Ok,
    ensures
        run.events.len() >= 4,
        went_as_registration(run, job, r.0, r.1),
{
    let n = run.events.len();
    assert(handlers::gate::next(run.flows[n as int], event, Step::Done(end)));
    assert(n >= 1);
    lemma_step(run, 0);
    assert(n >= 2);
    lemma_step(run, 1);
    let challenge = run.events[1]->RegisterChallenge_0->0;
    assert(n >= 3);
    lemma_step(run, 2);
    let raw = webauthn::b64url_bytes(job.device_response.response.client_data_json@);
    if raw is None {
        assert(webauthn::registered_credential(job.rp, challenge, job.device_response, None) is Err);
    }
    assert(n >= 4);
    lemma_step(run, 3);
    let client_data = run.events[3]->ClientData_0;
    (challenge, client_data)
}

/// A user is shown their recovery code only after their password was found to be right, and then
/// the code of the account that the password was checked for.
pub proof fn law_recovery_code_is_shown_to_its_owner(
    run: Run,
    credentials: PasswordOrOtpData,
    event: Event,
    end: Result<Reply, AppError>,
) -> (user: User)
    requires
        run.ends(event, end),
        run.flows[0] == (Flow::FindingUser { credentials, goal: Goal::GetRecover }),
        end is Ok,
    ensures
        run.events.len() == 1,
        run.events[0] == Event::User(Some(user)),
        run.actions[1] matches Action::VerifyPassword { user_id, .. } && user_id == user.id,
        event == Event::Password(true),
        handlers::flow::will_reply(end, handlers::replies::recover_view(user.totp_recover)),
{
    let n = run.events.len();
    assert(handlers::gate::next(run.flows[n as int], event, Step::Done(end)));
    assert(n >= 1);
    lemma_step(run, 0);
    if n >= 2 {
        lemma_step(run, 1);
    }
    run.events[0]->User_0->0
}

/// Whether a run went as the proof of an email address does: the code was the one that was sent, the
/// address was the one it was sent to, and the record became one of Email 2FA, without the code.
pub open spec fn went_as_email_activation(
    run: Run,
    email: Seq<char>,
    token: Seq<char>,
    row: TwoFactor,
    data: EmailTokenData,
) -> bool {
    &&& run.actions.len() >= 7
    &&& run.events[1] == Event::Password(true)
    &&& run.events[2] == Event::Row(Some(row))
    &&& run.events[3] == Event::EmailToken(Some(data))
    &&& data.last_token matches Some(issued) && issued@ == text::trimmed(token)
    &&& handlers::email::plain_email(data.email@) == handlers::email::plain_email(email)
    &&& run.actions[4] == Action::Encode(Payload::EmailToken(data.withdrawn()))
    &&& run.events[4] matches Event::Text(json) && run.actions[5] == Action::Write(
        Write::SetTypeAndData {
            uuid: row.uuid,
            atype: TwoFactorType::Email.code(),
            data: json,
        },
    )
    &&& run.events[5] == Event::Done
}

/// Email 2FA is activated only with the code that was sent to the address, for that address.
pub proof fn law_email_activation_goes_all_the_way(
    run: Run,
    credentials: PasswordOrOtpData,
    user_id: String,
    email: String,
    token: String,
    event: Event,
    end: Result<Reply, AppError>,
) -> (r: (TwoFactor, EmailTokenData))
    requires
        run.ends(event, end),
        run.flows[0] == (Flow::FindingUser {
            credentials,
            goal: Goal::ActivateEmail { user_id, email, token },
        }),
        end is Ok,
    ensures
        went_as_email_activation(run, email@, token@, r.0, r.1),
        handlers::flow::will_reply(end, handlers::replies::email_view(Some(r.1.email), true)),
{
    let n = run.events.len();
    assert(handlers::gate::next(run.flows[n as int], event, Step::Done(end)));
    assert(n >= 1);
    lemma_step(run, 0);
    assert(n >= 2);
    lemma_step(run, 1);
    assert(n >= 3);
    lemma_step(run, 2);
    let row = run.events[2]->Row_0->0;
    assert(n >= 4);
    lemma_step(run, 3);
    let data = run.events[3]->EmailToken_0->0;
    assert(n >= 5);
    lemma_step(run, 4);
    assert(n >= 6);
    lemma_step(run, 5);
    let reply = run.flows[4]->Email_0->Enabling_reply;
    handlers::gate::lemma_answer_is_kept(run, Ok(Reply::Json(reply)), 6, n as int);
    (row, data)
}

/// Whether a text is what a client sent, white space around it aside.
pub open spec fn was_sent(sent: Seq<String>, t: Seq<char>) -> bool {
    exists|i: int| 0 <= i < sent.len() && text::trimmed((#[trigger] sent[i])@) == t
}

/// Whether a public id is in the YubiKey record of the user, as it was read in the course of a run.
pub open spec fn was_registered(run: Run, user_id: String, key: Seq<char>) -> bool {
    &&& run.events.len() >= 4
    &&& run.actions[2] == Action::Query(
        Query::TwoFactorOfType { user_id, atype: TwoFactorType::YubiKey.code() },
    )
    &&& run.events[2] matches Event::Row(Some(row))
    &&& run.actions[3] == (Action::ReadYubikey { text: row.data })
    &&& run.events[3] matches Event::Yubikey(Some(meta))
    &&& text::views(meta.keys@).contains(key)
}

/// Whether a public id is that of a one-time password that the client sent, and for which YubiCloud
/// vouched in a step of a run.
pub open spec fn was_vouched_for(run: Run, sent: Seq<String>, key: Seq<char>, k: int) -> bool {
    &&& run.flows[k] matches Flow::Yubikey(YubikeyFlow::Verifying { otp, check, .. })
    &&& was_sent(sent, otp@)
    &&& yubico::otp_next(check, run.events[k], OtpStep::Done(Ok(())))
    &&& text::leading_bytes(otp@, PUBLIC_ID_LEN as int) matches Some(id)
    &&& key == outside::lowercase_of(id)
}

/// Whether a public id may be stored after the first `k` answers of a run.
pub open spec fn may_be_stored(
    run: Run,
    user_id: String,
    sent: Seq<String>,
    key: Seq<char>,
    k: int,
) -> bool {
    ||| was_registered(run, user_id, key)
    ||| exists|i: int| 0 <= i < k && #[trigger] was_vouched_for(run, sent, key, i)
}

/// Whether a run may accept these public ids after its first `k` answers.
pub open spec fn may_store_all(
    run: Run,
    user_id: String,
    sent: Seq<String>,
    keys: Seq<Seq<char>>,
    k: int,
) -> bool {
    forall|j: int| 0 <= j < keys.len() ==> may_be_stored(run, user_id, sent, #[trigger] keys[j], k)
}

/// Whether everything that is left to look at was sent.
pub open spec fn all_sent(sent: Seq<String>, rest: Seq<String>) -> bool {
    forall|j: int| 0 <= j < rest.len() ==> sent.contains(#[trigger] rest[j])
}

/// Whether all these public ids are in the YubiKey record of the user.
pub open spec fn all_registered(run: Run, user_id: String, known: Seq<Seq<char>>) -> bool {
    forall|j: int| 0 <= j < known.len() ==> was_registered(run, user_id, #[trigger] known[j])
}

/// Looking at what was sent accepts nothing but public ids that are registered.
proof fn lemma_scan_accepts(
    run: Run,
    user_id: String,
    sent: Seq<String>,
    rest: Seq<String>,
    keys: Seq<Seq<char>>,
    known: Seq<Seq<char>>,
    k: int,
)
    requires
        all_sent(sent, rest),
        all_registered(run, user_id, known),
        may_store_all(run, user_id, sent, keys, k),
    ensures
        match handlers::yubikey::scan(rest, keys, known) {
            Scan::End { keys: found } => may_store_all(run, user_id, sent, found, k),
            Scan::BadLength => true,
            Scan::Verify { otp, rest: left, keys: found } => may_store_all(run, user_id, sent, found, k)
                && all_sent(sent, left) && was_sent(sent, otp),
        },
    decreases rest.len(),
{
    if rest.len() > 0 {
        let otp = text::trimmed(rest.first()@);
        let left = rest.drop_first();
        assert(sent.contains(rest[0]));
        let i = choose|i: int| 0 <= i < sent.len() && sent[i] == rest[0];
        assert(text::trimmed(sent[i]@) == otp);
        assert(was_sent(sent, otp));
        assert(all_sent(sent, left)) by {
            assert forall|j: int| 0 <= j < left.len() implies sent.contains(#[trigger] left[j]) by {
                assert(left[j] == rest[j + 1]);
            }
        }
        if otp.len() == 0 {
            lemma_scan_accepts(run, user_id, sent, left, keys, known, k);
        } else if text::byte_len(otp) == PUBLIC_ID_LEN && known.contains(
            outside::lowercase_of(otp),
        ) {
            let more = keys.push(outside::lowercase_of(otp));
            let m = choose|m: int| 0 <= m < known.len() && known[m] == outside::lowercase_of(otp);
            assert(was_registered(run, user_id, known[m]));
            assert forall|j: int| 0 <= j < more.len() implies may_be_stored(
                run,
                user_id,
                sent,
                #[trigger] more[j],
                k,
            ) by {
                if j < keys.len() {
                    assert(more[j] == keys[j]);
                }
            }
            lemma_scan_accepts(run, user_id, sent, left, more, known, k);
        }
    }
}

/// What may be stored may still be stored one answer later.
proof fn lemma_may_store_later(
    run: Run,
    user_id: String,
    sent: Seq<String>,
    keys: Seq<Seq<char>>,
    k: int,
)
    requires
        may_store_all(run, user_id, sent, keys, k),
    ensures
        may_store_all(run, user_id, sent, keys, k + 1),
{
    assert forall|j: int| 0 <= j < keys.len() implies may_be_stored(
        run,
        user_id,
        sent,
        #[trigger] keys[j],
        k + 1,
    ) by {
        assert(may_be_stored(run, user_id, sent, keys[j], k));
        if !was_registered(run, user_id, keys[j]) {
            let i = choose|i: int| 0 <= i < k && #[trigger] was_vouched_for(run, sent, keys[j], i);
            assert(was_vouched_for(run, sent, keys[j], i));
        }
    }
}

/// Where the activation of YubiKeys may stand after the first `k` answers of a run.
pub open spec fn activation_stands(
    run: Run,
    user_id: String,
    sent: Seq<String>,
    k: int,
    out: Step,
) -> bool {
    match out {
        Step::Ask(
            Flow::Yubikey(YubikeyFlow::Verifying { job, otp, .. }),
            action,
        ) => may_store_all(run, user_id, sent, text::views(job.keys@), k) && all_sent(sent, job.rest@)
            && was_sent(sent, otp@) && all_registered(run, user_id, text::views(job.known@))
            && !(action is Encode),
        Step::Ask(Flow::Commit(_), Action::Encode(payload)) => payload matches Payload::Yubikey(meta)
            && may_store_all(run, user_id, sent, text::views(meta.keys@), k),
        Step::Ask(Flow::Commit(_), _) => true,
        Step::Ask(_, _) => false,
        Step::Done(_) => true,
    }
}

/// Going on with an activation keeps to what was sent and vouched for.
proof fn lemma_proceeds(
    run: Run,
    user_id: String,
    sent: Seq<String>,
    job: YubikeyJob,
    k: int,
    out: Step,
)
    requires
        all_sent(sent, job.rest@),
        all_registered(run, user_id, text::views(job.known@)),
        may_store_all(run, user_id, sent, text::views(job.keys@), k),
        handlers::yubikey::proceeds(job, out),
    ensures
        activation_stands(run, user_id, sent, k, out),
{
    let known = text::views(job.known@);
    lemma_scan_accepts(run, user_id, sent, job.rest@, text::views(job.keys@), known, k);
    match handlers::yubikey::scan(job.rest@, text::views(job.keys@), known) {
        Scan::End { keys } => {
            if keys.len() > 0 {
                let meta = out->Ask_1->Encode_0->Yubikey_0;
                let stored = text::views(meta.keys@);
                assert forall|j: int| 0 <= j < stored.len() implies may_be_stored(
                    run,
                    user_id,
                    sent,
                    #[trigger] stored[j],
                    k,
                ) by {
                    assert(keys.contains(meta.keys@[j]@));
                    let i = choose|i: int| 0 <= i < keys.len() && keys[i] == meta.keys@[j]@;
                    assert(may_be_stored(run, user_id, sent, keys[i], k));
                }
            }
        },
        Scan::BadLength => {},
        Scan::Verify { otp, rest, keys } => {
            let (after, o, step) = choose|after: YubikeyJob, o: String, step: OtpStep|
                handlers::yubikey::same_job(job, after) && after.rest@ == rest && text::views(
                    after.keys@,
                ) == keys && o@ == otp && yubico::starts_check(job.settings, otp, step)
                    && #[trigger] handlers::yubikey::asks_cloud(after, o, step, out);
            assert(handlers::yubikey::asks_cloud(after, o, step, out));
            lemma_start_never_encodes(job.settings, otp, step);
        },
    }
}

/// The verification of a one-time password does not start with a value to be written as JSON.
proof fn lemma_start_never_encodes(
    settings: yubico::YubicoSettings,
    otp: Seq<char>,
    step: OtpStep,
)
    requires
        yubico::starts_check(settings, otp, step),
    ensures
        step matches OtpStep::Ask(_, action) ==> !(action is Encode),
{
    if step is Ask {
        let request = choose|request: yubico::OtpRequest|
            yubico::requests(settings, otp, request) && #[trigger] yubico::begins(request, step);
        assert(yubico::begins(request, step));
    }
}

/// Going on with an activation, once its record was looked for, keeps to what was sent.
proof fn lemma_resumes(
    run: Run,
    job: YubikeyJob,
    known: Seq<String>,
    k: int,
    out: Step,
)
    requires
        job.keys@.len() == 0,
        all_registered(run, job.user_id, text::views(known)),
        handlers::yubikey::resumes(job, known, out),
    ensures
        activation_stands(run, job.user_id, job.rest@, k, out),
{
    let after = choose|after: YubikeyJob|
        after.user_id == job.user_id && after.settings == job.settings && after.nfc == job.nfc
            && after.rest == job.rest && after.keys == job.keys && after.known@ == known
            && #[trigger] handlers::yubikey::proceeds(after, out);
    assert(handlers::yubikey::proceeds(after, out));
    lemma_proceeds(run, job.user_id, job.rest@, after, k, out);
}

/// How the activation of YubiKeys begins: its record is looked for, and read where there is one.
proof fn lemma_activation_begins(run: Run, credentials: PasswordOrOtpData, job: YubikeyJob)
    requires
        run.valid(),
        run.flows[0] == (Flow::FindingUser { credentials, goal: Goal::ActivateYubikey { job } }),
    ensures
        run.flows.len() >= 2 ==> !(run.actions[1] is Encode) && !(run.actions[1] is Write),
        run.flows.len() >= 3 ==> handlers::yubikey::recalls(
            job,
            Step::Ask(run.flows[2], run.actions[2]),
        ),
        run.flows.len() >= 4 ==> ({
            let out = Step::Ask(run.flows[3], run.actions[3]);
            ||| run.events[2] == Event::Row(None) && handlers::yubikey::resumes(
                job,
                Seq::empty(),
                out,
            )
            ||| (run.events[2] matches Event::Row(Some(row)) && out == Step::Ask(
                Flow::Yubikey(YubikeyFlow::RecallingData { job }),
                Action::ReadYubikey { text: row.data },
            ))
        }),
{
    if run.flows.len() >= 2 {
        lemma_step(run, 0);
    }
    if run.flows.len() >= 3 {
        lemma_step(run, 1);
    }
    if run.flows.len() >= 4 {
        lemma_step(run, 2);
    }
}

/// Where the activation of YubiKeys stands, whatever it was answered.
proof fn lemma_activation_stands(
    run: Run,
    credentials: PasswordOrOtpData,
    job: YubikeyJob,
    k: int,
)
    requires
        run.valid(),
        run.flows[0] == (Flow::FindingUser { credentials, goal: Goal::ActivateYubikey { job } }),
        job.keys@.len() == 0,
        3 <= k < run.flows.len(),
    ensures
        activation_stands(run, job.user_id, job.rest@, k, Step::Ask(run.flows[k], run.actions[k]))
            || (k == 3 && run.flows[k] == Flow::Yubikey(YubikeyFlow::RecallingData { job })
            && run.actions[k] is ReadYubikey),
    decreases k,
{
    let sent = job.rest@;
    let user_id = job.user_id;
    let out = Step::Ask(run.flows[k], run.actions[k]);
    let event = run.events[k - 1];
    assert(all_sent(sent, sent));
    lemma_activation_begins(run, credentials, job);
    lemma_step(run, k - 1);
    if k == 3 {
        if event == Event::Row(None) {
            lemma_resumes(run, job, Seq::empty(), k, out);
        }
    } else {
        lemma_activation_stands(run, credentials, job, k - 1);
        if let Flow::Yubikey(YubikeyFlow::RecallingData { .. }) = run.flows[k - 1] {
            let known = handlers::yubikey::registered(event->Yubikey_0);
            assert(all_registered(run, user_id, text::views(known))) by {
                assert forall|j: int| 0 <= j < known.len() implies was_registered(
                    run,
                    user_id,
                    #[trigger] text::views(known)[j],
                ) by {
                    assert(text::views(known).contains(text::views(known)[j]));
                }
            }
            lemma_resumes(run, job, known, k, out);
        }
        if let Flow::Yubikey(YubikeyFlow::Verifying { job: now, otp, check }) = run.flows[k - 1] {
            let step = choose|step: OtpStep|
                yubico::otp_next(check, event, step) && #[trigger] handlers::yubikey::verifies(
                    now,
                    otp,
                    step,
                    out,
                );
            assert(handlers::yubikey::verifies(now, otp, step, out));
            lemma_may_store_later(run, user_id, sent, text::views(now.keys@), k - 1);
            if step == OtpStep::Done(Ok(())) {
                let id = text::leading_bytes(otp@, PUBLIC_ID_LEN as int)->0;
                let key = outside::lowercase_of(id);
                let after = choose|after: YubikeyJob|
                    handlers::yubikey::same_job(now, after) && after.rest == now.rest
                        && text::views(after.keys@) == text::views(now.keys@).push(key)
                        && #[trigger] handlers::yubikey::proceeds(after, out);
                assert(handlers::yubikey::proceeds(after, out));
                assert(was_vouched_for(run, sent, key, k - 1));
                assert(may_be_stored(run, user_id, sent, key, k));
                let keys = text::views(after.keys@);
                assert forall|j: int| 0 <= j < keys.len() implies may_be_stored(
                    run,
                    user_id,
                    sent,
                    #[trigger] keys[j],
                    k,
                ) by {
                    if j < now.keys@.len() {
                        assert(keys[j] == text::views(now.keys@)[j]);
                    }
                }
                lemma_proceeds(run, user_id, sent, after, k, out);
            }
        }
    }
}

/// Every public id that the activation of YubiKeys stores is one that the user's record held already,
/// or that of a one-time password that the client sent and YubiCloud vouched for during the request.
pub proof fn law_stored_yubikeys_were_registered_or_vouched_for(
    run: Run,
    credentials: PasswordOrOtpData,
    job: YubikeyJob,
    k: int,
    meta: YubikeyMetadata,
    j: int,
)
    requires
        run.valid(),
        run.flows[0] == (Flow::FindingUser { credentials, goal: Goal::ActivateYubikey { job } }),
        job.keys@.len() == 0,
        0 < k < run.actions.len(),
        run.actions[k] == Action::Encode(Payload::Yubikey(meta)),
        0 <= j < meta.keys@.len(),
    ensures
        may_be_stored(run, job.user_id, job.rest@, meta.keys@[j]@, k),
{
    lemma_activation_begins(run, credentials, job);
    assert(k >= 3);
    lemma_activation_stands(run, credentials, job, k);
    assert(text::views(meta.keys@)[j] == meta.keys@[j]@);
}

/// The public id in what a client sent: all of it where it takes twelve bytes, and otherwise the first
/// twelve; in lower case.
pub open spec fn public_id(t: Seq<char>) -> Seq<char> {
    if text::byte_len(t) == 12 {
        outside::lowercase_of(t)
    } else {
        outside::lowercase_of(text::leading_bytes(t, 12)->0)
    }
}

/// Whether something that was sent is blank, was accepted, is still to be looked at, or is the
/// one-time password that is being verified.
pub open spec fn is_accounted_for(
    sent: String,
    rest: Seq<String>,
    keys: Seq<Seq<char>>,
    verifying: Option<Seq<char>>,
) -> bool {
    let t = text::trimmed(sent@);
    t.len() == 0 || rest.contains(sent) || verifying == Some(t) || keys.contains(public_id(t))
}

/// Whether nothing that was sent was lost.
pub open spec fn all_accounted_for(
    sent: Seq<String>,
    rest: Seq<String>,
    keys: Seq<Seq<char>>,
    verifying: Option<Seq<char>>,
) -> bool {
    forall|i: int|
        0 <= i < sent.len() ==> is_accounted_for(#[trigger] sent[i], rest, keys, verifying)
}

/// Looking at what was sent loses nothing.
proof fn lemma_scan_accounts(
    sent: Seq<String>,
    rest: Seq<String>,
    keys: Seq<Seq<char>>,
    known: Seq<Seq<char>>,
)
    requires
        all_accounted_for(sent, rest, keys, None),
    ensures
        match handlers::yubikey::scan(rest, keys, known) {
            Scan::End { keys: found } => all_accounted_for(sent, Seq::empty(), found, None),
            Scan::BadLength => true,
            Scan::Verify { otp, rest: left, keys: found } => text::byte_len(otp) == 44
                && all_accounted_for(sent, left, found, Some(otp)),
        },
    decreases rest.len(),
{
    if rest.len() == 0 {
        assert(rest =~= Seq::empty());
    } else {
        let otp = text::trimmed(rest.first()@);
        let id = outside::lowercase_of(otp);
        let left = rest.drop_first();
        assert forall|s: String| #[trigger] rest.contains(s) implies s == rest[0] || left.contains(
            s,
        ) by {
            let i = choose|i: int| 0 <= i < rest.len() && rest[i] == s;
            if i > 0 {
                assert(left[i - 1] == s);
            }
        }
        if otp.len() == 0 {
            lemma_scan_accounts(sent, left, keys, known);
        } else if text::byte_len(otp) == PUBLIC_ID_LEN && known.contains(id) {
            let more = keys.push(id);
            assert(more[keys.len() as int] == id);
            assert forall|i: int| 0 <= i < sent.len() implies is_accounted_for(
                #[trigger] sent[i],
                left,
                more,
                None,
            ) by {
                assert(is_accounted_for(sent[i], rest, keys, None));
                let t = text::trimmed(sent[i]@);
                if keys.contains(public_id(t)) {
                    let j = choose|j: int| 0 <= j < keys.len() && keys[j] == public_id(t);
                    assert(more[j] == public_id(t));
                }
            }
            lemma_scan_accounts(sent, left, more, known);
        } else if text::byte_len(otp) == yubico::OTP_LEN {
            assert forall|i: int| 0 <= i < sent.len() implies is_accounted_for(
                #[trigger] sent[i],
                left,
                keys,
                Some(otp),
            ) by {
                assert(is_accounted_for(sent[i], rest, keys, None));
            }
        }
    }
}

/// Whether the activation of YubiKeys has lost nothing of what was sent.
pub open spec fn loses_nothing(sent: Seq<String>, nfc: bool, out: Step) -> bool {
    match out {
        Step::Ask(
            Flow::Yubikey(YubikeyFlow::Verifying { job, otp, .. }),
            action,
        ) => text::byte_len(otp@) == 44 && job.nfc == nfc && all_accounted_for(
            sent,
            job.rest@,
            text::views(job.keys@),
            Some(otp@),
        ) && !(action is Encode),
        Step::Ask(Flow::Commit(_), Action::Encode(payload)) => payload matches Payload::Yubikey(meta)
            && meta.nfc == nfc && sorting::strictly_ordered(meta.keys@) && all_accounted_for(
            sent,
            Seq::empty(),
            text::views(meta.keys@),
            None,
        ),
        Step::Ask(Flow::Commit(_), _) => true,
        Step::Ask(_, _) => false,
        Step::Done(_) => true,
    }
}

/// Going on with an activation loses nothing.
proof fn lemma_proceeding_loses_nothing(sent: Seq<String>, job: YubikeyJob, out: Step)
    requires
        all_accounted_for(sent, job.rest@, text::views(job.keys@), None),
        handlers::yubikey::proceeds(job, out),
    ensures
        loses_nothing(sent, job.nfc, out),
{
    let known = text::views(job.known@);
    lemma_scan_accounts(sent, job.rest@, text::views(job.keys@), known);
    match handlers::yubikey::scan(job.rest@, text::views(job.keys@), known) {
        Scan::End { keys } => {
            if keys.len() > 0 {
                let meta = out->Ask_1->Encode_0->Yubikey_0;
                let stored = text::views(meta.keys@);
                assert forall|i: int| 0 <= i < sent.len() implies is_accounted_for(
                    #[trigger] sent[i],
                    Seq::empty(),
                    stored,
                    None,
                ) by {
                    assert(is_accounted_for(sent[i], Seq::empty(), keys, None));
                    let id = public_id(text::trimmed(sent[i]@));
                    if keys.contains(id) {
                        let j = choose|j: int| 0 <= j < keys.len() && keys[j] == id;
                        assert(stored.contains(keys[j]));
                    }
                }
            }
        },
        Scan::BadLength => {},
        Scan::Verify { otp, rest, keys } => {
            let (after, o, step) = choose|after: YubikeyJob, o: String, step: OtpStep|
                handlers::yubikey::same_job(job, after) && after.rest@ == rest && text::views(
                    after.keys@,
                ) == keys && o@ == otp && yubico::starts_check(job.settings, otp, step)
                    && #[trigger] handlers::yubikey::asks_cloud(after, o, step, out);
            assert(handlers::yubikey::asks_cloud(after, o, step, out));
            lemma_start_never_encodes(job.settings, otp, step);
        },
    }
}

/// Going on with an activation, once its record was looked for, loses nothing.
proof fn lemma_resuming_loses_nothing(job: YubikeyJob, known: Seq<String>, out: Step)
    requires
        handlers::yubikey::resumes(job, known, out),
    ensures
        loses_nothing(job.rest@, job.nfc, out),
{
    let after = choose|after: YubikeyJob|
        after.user_id == job.user_id && after.settings == job.settings && after.nfc == job.nfc
            && after.rest == job.rest && after.keys == job.keys && after.known@ == known
            && #[trigger] handlers::yubikey::proceeds(after, out);
    assert(handlers::yubikey::proceeds(after, out));
    let sent = job.rest@;
    assert forall|i: int| 0 <= i < sent.len() implies is_accounted_for(
        #[trigger] sent[i],
        sent,
        text::views(after.keys@),
        None,
    ) by {
        assert(sent.contains(sent[i]));
    }
    lemma_proceeding_loses_nothing(sent, after, out);
}

/// The activation of YubiKeys loses nothing, whatever it was answered.
proof fn lemma_activation_loses_nothing(
    run: Run,
    credentials: PasswordOrOtpData,
    job: YubikeyJob,
    k: int,
)
    requires
        run.valid(),
        run.flows[0] == (Flow::FindingUser { credentials, goal: Goal::ActivateYubikey { job } }),
        3 <= k < run.flows.len(),
    ensures
        loses_nothing(job.rest@, job.nfc, Step::Ask(run.flows[k], run.actions[k])) || (k == 3
            && run.flows[k] == Flow::Yubikey(YubikeyFlow::RecallingData { job })
            && run.actions[k] is ReadYubikey),
    decreases k,
{
    let sent = job.rest@;
    let out = Step::Ask(run.flows[k], run.actions[k]);
    let event = run.events[k - 1];
    lemma_activation_begins(run, credentials, job);
    lemma_step(run, k - 1);
    if k == 3 {
        if event == Event::Row(None) {
            lemma_resuming_loses_nothing(job, Seq::empty(), out);
        }
    } else {
        lemma_activation_loses_nothing(run, credentials, job, k - 1);
        if let Flow::Yubikey(YubikeyFlow::RecallingData { .. }) = run.flows[k - 1] {
            lemma_resuming_loses_nothing(
                job,
                handlers::yubikey::registered(event->Yubikey_0),
                out,
            );
        }
        if let Flow::Yubikey(YubikeyFlow::Verifying { job: now, otp, check }) = run.flows[k - 1] {
            let step = choose|step: OtpStep|
                yubico::otp_next(check, event, step) && #[trigger] handlers::yubikey::verifies(
                    now,
                    otp,
                    step,
                    out,
                );
            assert(handlers::yubikey::verifies(now, otp, step, out));
            if step == OtpStep::Done(Ok(())) {
                let key = outside::lowercase_of(text::leading_bytes(otp@, PUBLIC_ID_LEN as int)->0);
                let before = text::views(now.keys@);
                let after = choose|after: YubikeyJob|
                    handlers::yubikey::same_job(now, after) && after.rest == now.rest
                        && text::views(after.keys@) == before.push(key)
                        && #[trigger] handlers::yubikey::proceeds(after, out);
                assert(handlers::yubikey::proceeds(after, out));
                let keys = text::views(after.keys@);
                assert(keys[before.len() as int] == key);
                assert(public_id(otp@) == key);
                assert forall|i: int| 0 <= i < sent.len() implies is_accounted_for(
                    #[trigger] sent[i],
                    after.rest@,
                    keys,
                    None,
                ) by {
                    assert(is_accounted_for(sent[i], now.rest@, before, Some(otp@)));
                    let id = public_id(text::trimmed(sent[i]@));
                    if before.contains(id) {
                        let j = choose|j: int| 0 <= j < before.len() && before[j] == id;
                        assert(keys[j] == id);
                    }
                }
                lemma_proceeding_loses_nothing(sent, after, out);
            }
        }
    }
}

/// The activation of YubiKeys stores the public id of everything that the client sent and that is not
/// blank: of a one-time password its first twelve bytes, and of a public id all of it, in lower case.
/// It stores them in order and each of them once, and whether the keys can be read by NFC as the client said.
pub proof fn law_every_key_that_was_sent_is_stored(
    run: Run,
    credentials: PasswordOrOtpData,
    job: YubikeyJob,
    k: int,
    meta: YubikeyMetadata,
    i: int,
)
    requires
        run.valid(),
        run.flows[0] == (Flow::FindingUser { credentials, goal: Goal::ActivateYubikey { job } }),
        0 < k < run.actions.len(),
        run.actions[k] == Action::Encode(Payload::Yubikey(meta)),
        0 <= i < job.rest@.len(),
        text::trimmed(job.rest@[i]@).len() > 0,
    ensures
        ({
            let t = text::trimmed(job.rest@[i]@);
            let id = if text::byte_len(t) == 12 {
                t
            } else {
                text::leading_bytes(t, 12)->0
            };
            exists|j: int|
                0 <= j < meta.keys@.len() && (#[trigger] meta.keys@[j])@ == outside::lowercase_of(
                    id,
                )
        }),
        forall|a: int, b: int|
            0 <= a < b < meta.keys@.len() ==> text::text_le(
                (#[trigger] meta.keys@[a])@,
                (#[trigger] meta.keys@[b])@,
            ) && meta.keys@[a]@ != meta.keys@[b]@,
        meta.nfc == job.nfc,
{
    lemma_activation_begins(run, credentials, job);
    assert(k >= 3);
    lemma_activation_loses_nothing(run, credentials, job, k);
    let stored = text::views(meta.keys@);
    let id = public_id(text::trimmed(job.rest@[i]@));
    assert(is_accounted_for(job.rest@[i], Seq::empty(), stored, None));
    assert(stored.contains(id));
    let j = choose|j: int| 0 <= j < stored.len() && stored[j] == id;
    assert(meta.keys@[j]@ == id);
    assert forall|a: int, b: int| 0 <= a < b < meta.keys@.len() implies text::text_le(
        (#[trigger] meta.keys@[a])@,
        (#[trigger] meta.keys@[b])@,
    ) && meta.keys@[a]@ != meta.keys@[b]@ by {
        assert(meta.keys@[a].precedes(meta.keys@[b]) && !meta.keys@[b].precedes(meta.keys@[a]));
    }
}

/// An activation that has nothing to go on but a public id that is not registered is refused.
proof fn lemma_unregistered_is_refused(job: YubikeyJob, known: Seq<String>, out: Step)
    requires
        job.rest@.len() == 1,
        text::byte_len(text::trimmed(job.rest@[0]@)) == PUBLIC_ID_LEN,
        !text::views(known).contains(outside::lowercase_of(text::trimmed(job.rest@[0]@))),
        handlers::yubikey::resumes(job, known, out),
    ensures
        out == Step::Done(Err(AppError::BadRequest(Refusal::OtpLength))),
{
    let after = choose|after: YubikeyJob|
        after.user_id == job.user_id && after.settings == job.settings && after.nfc == job.nfc
            && after.rest == job.rest && after.keys == job.keys && after.known@ == known
            && #[trigger] handlers::yubikey::proceeds(after, out);
    assert(handlers::yubikey::proceeds(after, out));
    handlers::yubikey::law_unregistered_id_is_refused(
        job.rest@,
        text::views(job.keys@),
        text::views(known),
        outside::lowercase_of(text::trimmed(job.rest@[0]@)),
    );
}

/// A client that sends one public id, which no YubiKey record that was read holds, is refused, and
/// nothing was changed.
pub proof fn law_unregistered_yubikey_changes_nothing(
    run: Run,
    credentials: PasswordOrOtpData,
    job: YubikeyJob,
    id: Seq<char>,
    event: Event,
    end: Result<Reply, AppError>,
)
    requires
        run.ends(event, end),
        run.flows[0] == (Flow::FindingUser { credentials, goal: Goal::ActivateYubikey { job } }),
        job.keys@.len() == 0,
        job.rest@.len() == 1,
        text::byte_len(text::trimmed(job.rest@[0]@)) == PUBLIC_ID_LEN,
        id == outside::lowercase_of(text::trimmed(job.rest@[0]@)),
        forall|i: int, meta: YubikeyMetadata|
            0 <= i <= run.events.len() && #[trigger] run.events.push(event)[i] == Event::Yubikey(
                Some(meta),
            ) ==> !(#[trigger] text::views(meta.keys@)).contains(id),
    ensures
        end is Err,
        forall|k: int| 0 < k < run.actions.len() ==> !(#[trigger] run.actions[k] is Write),
{
    let n = run.events.len() as int;
    let all = run.events.push(event);
    assert(text::views(Seq::<String>::empty()) =~= Seq::<Seq<char>>::empty());
    lemma_activation_begins(run, credentials, job);
    assert(handlers::gate::next(run.flows[n], event, Step::Done(end)));
    if n >= 1 {
        lemma_step(run, 0);
    }
    if n >= 3 {
        let out = Step::Ask(run.flows[3], run.actions[3]);
        if run.events[2] == Event::Row(None) {
            lemma_unregistered_is_refused(job, Seq::empty(), out);
        }
        let answer = all[3];
        let next = if n >= 4 {
            Step::Ask(run.flows[4], run.actions[4])
        } else {
            Step::Done(end)
        };
        if n >= 4 {
            lemma_step(run, 3);
        }
        assert(handlers::gate::next(run.flows[3], answer, next));
        if let Event::Yubikey(data) = answer {
            if let Some(meta) = data {
                assert(!text::views(meta.keys@).contains(id));
            }
            lemma_unregistered_is_refused(job, handlers::yubikey::registered(data), next);
        }
        assert(n == 3);
    } else if n == 2 {
        if event == Event::Row(None) {
            lemma_unregistered_is_refused(job, Seq::empty(), Step::Done(end));
        }
    }
}

/// The list of providers shows exactly the records of the user that are enabled and of no pending
/// ceremony, where the database answers with what was asked for.
pub proof fn law_listed_providers_are_enabled(
    user_id: String,
    rows: Seq<TwoFactor>,
    answer: Vec<TwoFactor>,
    row: TwoFactor,
    out: Step,
)
    requires
        answer@ == store::found(Query::TwoFactors { user_id }, rows),
        handlers::gate::next(Flow::ListingProviders, Event::Rows(answer), out),
    ensures
        handlers::flow::replies(out, handlers::replies::provider_list_view(answer@)),
        handlers::replies::enabled_rows(answer@).contains(row) <==> rows.contains(row)
            && row.user_uuid@ == user_id@ && row.enabled && row.atype < 1000,
{
    store::lemma_found(Query::TwoFactors { user_id }, rows, row);
    handlers::replies::lemma_enabled_rows(answer@, row);
}

/// The type of the challenge that a ceremony uses up.
pub open spec fn challenge_type(login: bool) -> TwoFactorType {
    if login {
        TwoFactorType::WebauthnLoginChallenge
    } else {
        TwoFactorType::WebauthnRegisterChallenge
    }
}

/// Whether a WebAuthn login, or the registration of a key, may stand here for a user.
pub open spec fn in_ceremony(state: WebauthnFlow, user_id: String, login: bool) -> bool {
    match state {
        WebauthnFlow::Loading { goal } => serves_ceremony(goal, login),
        WebauthnFlow::Reading { goal, .. } => serves_ceremony(goal, login),
        WebauthnFlow::Recalling { job } => !login && job.user_id == user_id,
        WebauthnFlow::RecallingData { job } => !login && job.user_id == user_id,
        WebauthnFlow::Forgetting { job, .. } => !login && job.user_id == user_id,
        WebauthnFlow::Registering { job, .. } => !login && job.user_id == user_id,
        WebauthnFlow::LoginRecalling { user_id: u, .. } => login && u == user_id,
        WebauthnFlow::LoginRecallingData { user_id: u, .. } => login && u == user_id,
        WebauthnFlow::LoginForgetting { user_id: u, .. } => login && u == user_id,
        WebauthnFlow::LoginAsserting { .. } => login,
        WebauthnFlow::LoginChecking { .. } => login,
        WebauthnFlow::LoginVerifying { .. } => login,
        WebauthnFlow::Deleting { .. } | WebauthnFlow::DeletingData { .. } => false,
    }
}

/// Whether registrations are loaded for a login, or for the registration of a key.
pub open spec fn serves_ceremony(goal: WebauthnGoal, login: bool) -> bool {
    match goal {
        WebauthnGoal::Login { .. } => login,
        WebauthnGoal::Register { .. } => !login,
        _ => false,
    }
}

/// Whether a ceremony stands before its outcome, or is past it and will be answered with success.
pub open spec fn ceremony_stands(flow: Flow, user_id: String, login: bool) -> bool {
    match flow {
        Flow::Webauthn(state) => in_ceremony(state, user_id, login),
        Flow::Commit(Commit::Saving { end, .. }) => end is Ok,
        Flow::Commit(Commit::Writing { end, .. }) => end is Ok,
        Flow::Commit(Commit::ReadingRecovery { end, .. }) => end is Ok,
        Flow::Commit(Commit::MakingRecovery { end, .. }) => end is Ok,
        Flow::Commit(Commit::CountingProviders { end, .. }) => end is Ok,
        Flow::Commit(Commit::Finishing { end }) => end is Ok,
        _ => false,
    }
}

/// What one step of a ceremony does.
proof fn lemma_ceremony_step(
    flow: Flow,
    event: Event,
    to: Flow,
    action: Action,
    user_id: String,
    login: bool,
)
    requires
        ceremony_stands(flow, user_id, login),
        handlers::gate::next(flow, event, Step::Ask(to, action)),
    ensures
        ceremony_stands(to, user_id, login),
        to is Webauthn ==> flow is Webauthn,
        to is Webauthn ==> (action matches Action::Write(w) ==> w == (Write::DeleteType {
            user_id,
            atype: challenge_type(login).code(),
        })),
{
}

/// A ceremony stands where it may, whatever it was answered.
proof fn lemma_ceremony_stands(run: Run, user_id: String, login: bool, k: int)
    requires
        run.valid(),
        ceremony_stands(run.flows[0], user_id, login),
        0 <= k < run.flows.len(),
    ensures
        ceremony_stands(run.flows[k], user_id, login),
    decreases k,
{
    if k > 0 {
        lemma_ceremony_stands(run, user_id, login, k - 1);
        lemma_step(run, k - 1);
        lemma_ceremony_step(
            run.flows[k - 1],
            run.events[k - 1],
            run.flows[k],
            run.actions[k],
            user_id,
            login,
        );
    }
}

/// A ceremony that has not come to its outcome had not before.
proof fn lemma_ceremony_was_open(run: Run, user_id: String, login: bool, k: int, m: int)
    requires
        run.valid(),
        ceremony_stands(run.flows[0], user_id, login),
        0 <= k <= m < run.flows.len(),
        run.flows[m] is Webauthn,
    ensures
        run.flows[k] is Webauthn,
    decreases m - k,
{
    if k < m {
        lemma_ceremony_stands(run, user_id, login, m - 1);
        lemma_step(run, m - 1);
        lemma_ceremony_step(
            run.flows[m - 1],
            run.events[m - 1],
            run.flows[m],
            run.actions[m],
            user_id,
            login,
        );
        lemma_ceremony_was_open(run, user_id, login, k, m - 1);
    }
}

/// A login with a WebAuthn key, or the registration of one, that is refused has changed nothing but
/// the challenge it used up: the registered keys of every user stay as they were.
pub proof fn law_refused_ceremony_leaves_the_keys(
    run: Run,
    user_id: String,
    login: bool,
    event: Event,
    why: Refusal,
    k: int,
    write: Write,
    rows: Seq<TwoFactor>,
    user: Seq<char>,
)
    requires
        run.ends(event, Err(AppError::BadRequest(why))),
        !(event is Failed),
        run.flows[0] matches Flow::Webauthn(state) && in_ceremony(state, user_id, login),
        0 < k < run.actions.len(),
        run.actions[k] == Action::Write(write),
    ensures
        write == (Write::DeleteType { user_id, atype: challenge_type(login).code() }),
        store::of_type(store::after(write, rows), user, TwoFactorType::Webauthn.code())
            == store::of_type(rows, user, TwoFactorType::Webauthn.code()),
{
    let n = run.events.len() as int;
    lemma_ceremony_stands(run, user_id, login, n);
    assert(handlers::gate::next(
        run.flows[n],
        event,
        Step::Done(Err(AppError::BadRequest(why))),
    ));
    assert(run.flows[n] is Webauthn);
    lemma_ceremony_was_open(run, user_id, login, k, n);
    lemma_ceremony_stands(run, user_id, login, k - 1);
    lemma_step(run, k - 1);
    lemma_ceremony_step(
        run.flows[k - 1],
        run.events[k - 1],
        run.flows[k],
        run.actions[k],
        user_id,
        login,
    );
    store::law_delete_type_drops_only_that_type(
        user_id,
        challenge_type(login).code(),
        rows,
        user,
        TwoFactorType::Webauthn.code(),
    );
}

} // verus!
