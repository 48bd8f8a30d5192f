//! Requests about WebAuthn keys.
use super::commit::{commit, save};
use super::flow::{
    fail, reply, Flow, RegistrationJob, Step, Upkeep, WebauthnFlow, WebauthnGoal,
};
use super::replies;
use crate::error::{AppError, Refusal};
use crate::exchange::{Action, Event, Payload, Reply};
use crate::json::Json;
use crate::models::twofactor::{NumberOrString, TwoFactorType};
use crate::models::user::User;
use crate::sorting::{stable_sort, Ranked};
use crate::store::{Query, Write};
use crate::webauthn::{
    check_assertion, client_data_bytes, credential_ids, finish_authentication, finish_registration,
    start_authentication, start_registration, ClientData, LoginChallengeState,
    PublicKeyCredentialAssertion, RegisterChallengeState, RegisterPublicKeyCredential,
    RelyingParty, SignatureCheck, WebauthnRegistration,
};
use crate::{handlers, sorting, text, webauthn};
use vstd::prelude::*;

verus! {

broadcast use vstd::string::group_string_axioms;

/// How many keys a user may register.
pub const MAX_KEYS: usize = 5;

// ---------------------------------------------------------------------------------------------
// The list of keys
// ---------------------------------------------------------------------------------------------

/// Whether a credential is registered.
pub open spec fn has_credential(
    registrations: Seq<WebauthnRegistration>,
    cred_id: Seq<char>,
) -> bool {
    exists|i: int|
        0 <= i < registrations.len() && (#[trigger] registrations[i]).credential.cred_id@ == cred_id
}

/// The registrations in other slots.
pub open spec fn elsewhere(registrations: Seq<WebauthnRegistration>, slot: i32) -> Seq<
    WebauthnRegistration,
>
    decreases registrations.len(),
{
    if registrations.len() == 0 {
        registrations
    } else if registrations.last().id == slot {
        elsewhere(registrations.drop_last(), slot)
    } else {
        elsewhere(registrations.drop_last(), slot).push(registrations.last())
    }
}

/// The registrations with one more, which takes the place of those in its slot.
pub open spec fn merged(registrations: Seq<WebauthnRegistration>, new: WebauthnRegistration) -> Result<
    Seq<WebauthnRegistration>,
    AppError,
> {
    if has_credential(registrations, new.credential.cred_id@) {
        Err(AppError::BadRequest(Refusal::CredentialAlreadyRegistered))
    } else if elsewhere(registrations, new.id).len() >= MAX_KEYS {
        Err(AppError::BadRequest(Refusal::TooManyKeys))
    } else {
        Ok(sorting::in_order(elsewhere(registrations, new.id).push(new)))
    }
}

/// Whether a credential is registered.
fn knows_credential(registrations: &Vec<WebauthnRegistration>, cred_id: &String) -> (r: bool)
    ensures
        r == has_credential(registrations@, cred_id@),
{
    let mut i: usize = 0;
    while i < registrations.len()
        invariant
            i <= registrations.len(),
            forall|k: int|
                0 <= k < i ==> (#[trigger] registrations@[k]).credential.cred_id@ != cred_id@,
        decreases registrations.len() - i,
    {
        if registrations[i].credential.cred_id == *cred_id {
            return true;
        }
        i = i + 1;
    }
    false
}

/// The registrations in other slots.
fn keep_elsewhere(registrations: Vec<WebauthnRegistration>, slot: i32) -> (r: Vec<
    WebauthnRegistration,
>)
    ensures
        r@ == elsewhere(registrations@, slot),
{
    let mut rest = registrations;
    let mut kept: Vec<WebauthnRegistration> = Vec::new();
    let ghost all = registrations@;
    let ghost mut done: int = 0;
    assert(all.skip(0) =~= all);
    assert(kept@ =~= elsewhere(all.take(0), slot));
    while rest.len() > 0
        invariant
            0 <= done <= all.len(),
            rest@ == all.skip(done),
            kept@ == elsewhere(all.take(done), slot),
        decreases rest.len(),
    {
        let registration = rest.remove(0);
        proof {
            assert(registration == all[done]);
            assert(rest@ =~= all.skip(done + 1));
            assert(all.take(done + 1).drop_last() =~= all.take(done));
            done = done + 1;
        }
        if registration.id != slot {
            kept.push(registration);
        }
    }
    assert(all.take(done) =~= all);
    kept
}

/// Adds a registration, in the place of those in its slot, and sorts by slot.
pub fn merge_registration(
    registrations: Vec<WebauthnRegistration>,
    new: WebauthnRegistration,
) -> (r: Result<Vec<WebauthnRegistration>, AppError>)
    ensures
        match merged(registrations@, new) {
            Ok(all) => r matches Ok(v) && v@ == all,
            Err(e) => r == Err::<Vec<WebauthnRegistration>, AppError>(e),
        },
{
    if knows_credential(&registrations, &new.credential.cred_id) {
        return Err(AppError::BadRequest(Refusal::CredentialAlreadyRegistered));
    }
    let mut kept = keep_elsewhere(registrations, new.id);
    if kept.len() >= MAX_KEYS {
        return Err(AppError::BadRequest(Refusal::TooManyKeys));
    }
    kept.push(new);
    Ok(stable_sort(kept))
}

/// Where the first registration stands that is in a slot.
pub open spec fn slot_index(registrations: Seq<WebauthnRegistration>, slot: i32) -> Option<int>
    decreases registrations.len(),
{
    if registrations.len() == 0 {
        None
    } else if registrations.first().id == slot {
        Some(0)
    } else {
        match slot_index(registrations.drop_first(), slot) {
            Some(i) => Some(i + 1),
            None => None,
        }
    }
}

/// Where the first registration stands that is in a slot.
pub fn find_slot(registrations: &Vec<WebauthnRegistration>, slot: i32) -> (r: Option<usize>)
    ensures
        match r {
            Some(i) => slot_index(registrations@, slot) == Some(i as int) && i
                < registrations@.len(),
            None => slot_index(registrations@, slot) is None,
        },
{
    let ghost all = registrations@;
    let mut i: usize = 0;
    assert(all.skip(0) =~= all);
    while i < registrations.len()
        invariant
            i <= registrations.len(),
            all == registrations@,
            slot_index(all, slot) == match slot_index(all.skip(i as int), slot) {
                Some(k) => Some(i + k),
                None => None,
            },
        decreases registrations.len() - i,
    {
        assert(all.skip(i as int).first() == all[i as int]);
        assert(all.skip(i as int).drop_first() =~= all.skip(i + 1));
        if registrations[i].id == slot {
            return Some(i);
        }
        i = i + 1;
    }
    None
}

/// The name under which a user is shown: their own, where they have one, or else their address.
pub open spec fn shown_name(user: User) -> Seq<char> {
    match user.name {
        Some(n) => if n@.len() > 0 {
            n@
        } else {
            user.email@
        },
        None => user.email@,
    }
}

/// The name under which a user is shown.
pub fn display_name(user: &User) -> (r: String)
    ensures
        r@ == shown_name(*user),
{
    match &user.name {
        Some(n) => if !n.as_str().is_empty() {
            n.clone()
        } else {
            user.email.clone()
        },
        None => user.email.clone(),
    }
}

// ---------------------------------------------------------------------------------------------
// Loading registrations
// ---------------------------------------------------------------------------------------------

/// Asks for the record that holds the registrations of a user.
pub fn load(user_id: String, goal: WebauthnGoal) -> (out: Step)
    ensures
        out == Step::Ask(
            Flow::Webauthn(WebauthnFlow::Loading { goal }),
            Action::Query(Query::TwoFactorOfType { user_id, atype: TwoFactorType::Webauthn.code() }),
        ),
{
    Step::Ask(
        Flow::Webauthn(WebauthnFlow::Loading { goal }),
        Action::Query(Query::TwoFactorOfType { user_id, atype: TwoFactorType::Webauthn.to_i32() }),
    )
}

/// Whether this is how a registration challenge is stored, and its options are answered.
pub open spec fn saves_register_challenge(
    user_id: String,
    started: Result<(Json, RegisterChallengeState), AppError>,
    out: Step,
) -> bool {
    match started {
        Err(e) => handlers::flow::fails(out, e),
        Ok((options, state)) => handlers::commit::saves(
            user_id,
            TwoFactorType::WebauthnRegisterChallenge,
            Payload::RegisterChallenge(state),
            Upkeep::Nothing,
            Ok(Reply::Json(options)),
            out,
        ),
    }
}

/// Whether this is how a login challenge is stored, and its options are answered.
pub open spec fn saves_login_challenge(
    user_id: String,
    started: Result<(Json, LoginChallengeState), AppError>,
    out: Step,
) -> bool {
    match started {
        Err(e) => handlers::flow::fails(out, e),
        Ok((options, state)) => handlers::commit::saves(
            user_id,
            TwoFactorType::WebauthnLoginChallenge,
            Payload::LoginChallenge(state),
            Upkeep::Nothing,
            Ok(Reply::Json(options)),
            out,
        ),
    }
}

/// Whether this is how registrations are stored.
pub open spec fn saves_registrations(
    user_id: String,
    registrations: Seq<WebauthnRegistration>,
    upkeep: Upkeep,
    end: Result<Reply, AppError>,
    out: Step,
) -> bool {
    &&& out matches Step::Ask(_, Action::Encode(Payload::Registrations(v)))
    &&& v@ == registrations
    &&& handlers::commit::saves(
        user_id,
        TwoFactorType::Webauthn,
        Payload::Registrations(v),
        upkeep,
        end,
        out,
    )
}

/// Whether this is how a new key is stored.
pub open spec fn registers_key(
    user_id: String,
    registrations: Seq<WebauthnRegistration>,
    new: WebauthnRegistration,
    out: Step,
) -> bool {
    match merged(registrations, new) {
        Err(e) => handlers::flow::fails(out, e),
        Ok(all) => exists|end: Result<Reply, AppError>|
            handlers::flow::will_reply(end, replies::webauthn_view(true, all, "twoFactorU2f"@))
                && #[trigger] saves_registrations(
                user_id,
                all,
                Upkeep::IssueRecovery { user_id },
                end,
                out,
            ),
    }
}

/// Stores a new key.
fn register_key(
    user_id: String,
    registrations: Vec<WebauthnRegistration>,
    new: WebauthnRegistration,
) -> (out: Step)
    ensures
        registers_key(user_id, registrations@, new, out),
{
    match merge_registration(registrations, new) {
        Err(e) => fail(e),
        Ok(all) => {
            let ghost stored = all@;
            let end: Result<Reply, AppError> = Ok(
                Reply::Json(replies::jsonify_webauthn_u2f(true, &all)),
            );
            let ghost ending = end;
            let owner = user_id.clone();
            let out = save(
                owner,
                TwoFactorType::Webauthn,
                Payload::Registrations(all),
                Upkeep::IssueRecovery { user_id },
                end,
            );
            assert(saves_registrations(
                user_id,
                stored,
                Upkeep::IssueRecovery { user_id },
                ending,
                out,
            ));
            out
        },
    }
}

/// Whether this is what follows the registrations of a user.
pub open spec fn loaded(
    goal: WebauthnGoal,
    enabled: bool,
    registrations: Vec<WebauthnRegistration>,
    out: Step,
) -> bool {
    match goal {
        WebauthnGoal::Show => handlers::flow::replies(
            out,
            replies::webauthn_view(enabled, registrations@, "twoFactorWebAuthn"@),
        ),
        WebauthnGoal::Challenge { user_id, rp, user } => exists|
            started: Result<(Json, RegisterChallengeState), AppError>,
        |
            webauthn::registration_started(
                rp,
                user.id@,
                user.email@,
                shown_name(user),
                webauthn::ids_of(registrations@),
                started,
            ) && #[trigger] saves_register_challenge(user_id, started, out),
        WebauthnGoal::Register { user_id, slot, name, credential } => registers_key(
            user_id,
            registrations@,
            WebauthnRegistration { id: slot, name, migrated: false, credential },
            out,
        ),
        WebauthnGoal::LoginOptions { user_id, rp } => exists|
            started: Result<(Json, LoginChallengeState), AppError>,
        |
            webauthn::login_started(rp, registrations@, started)
                && #[trigger] saves_login_challenge(user_id, started, out),
        WebauthnGoal::Login { user_id, rp, assertion_json, state } => if !enabled
            || registrations@.len() == 0 {
            handlers::flow::fails(out, AppError::BadRequest(Refusal::WebauthnNotConfigured))
        } else {
            out == Step::Ask(
                Flow::Webauthn(WebauthnFlow::LoginAsserting { user_id, rp, state, registrations }),
                Action::ReadAssertion { text: assertion_json },
            )
        },
    }
}

/// Goes on with the registrations of a user.
pub fn go_on_loaded(
    goal: WebauthnGoal,
    enabled: bool,
    registrations: Vec<WebauthnRegistration>,
) -> (out: Step)
    ensures
        loaded(goal, enabled, registrations, out),
{
    match goal {
        WebauthnGoal::Show => reply(replies::jsonify_webauthn(enabled, &registrations)),
        WebauthnGoal::Challenge { user_id, rp, user } => {
            let exclude = credential_ids(&registrations);
            let shown = display_name(&user);
            let started = start_registration(
                &rp,
                user.id.as_str(),
                user.email.as_str(),
                shown.as_str(),
                &exclude,
            );
            let ghost made = started;
            let out = match started {
                Err(e) => fail(e),
                Ok((options, state)) => save(
                    user_id,
                    TwoFactorType::WebauthnRegisterChallenge,
                    Payload::RegisterChallenge(state),
                    Upkeep::Nothing,
                    Ok(Reply::Json(options)),
                ),
            };
            assert(saves_register_challenge(user_id, made, out));
            out
        },
        WebauthnGoal::Register { user_id, slot, name, credential } => register_key(
            user_id,
            registrations,
            WebauthnRegistration { id: slot, name, migrated: false, credential },
        ),
        WebauthnGoal::LoginOptions { user_id, rp } => {
            let started = start_authentication(&rp, &registrations);
            let ghost made = started;
            let out = match started {
                Err(e) => fail(e),
                Ok((options, state)) => save(
                    user_id,
                    TwoFactorType::WebauthnLoginChallenge,
                    Payload::LoginChallenge(state),
                    Upkeep::Nothing,
                    Ok(Reply::Json(options)),
                ),
            };
            assert(saves_login_challenge(user_id, made, out));
            out
        },
        WebauthnGoal::Login { user_id, rp, assertion_json, state } => if !enabled
            || registrations.len() == 0 {
            fail(AppError::BadRequest(Refusal::WebauthnNotConfigured))
        } else {
            Step::Ask(
                Flow::Webauthn(WebauthnFlow::LoginAsserting { user_id, rp, state, registrations }),
                Action::ReadAssertion { text: assertion_json },
            )
        },
    }
}

// ---------------------------------------------------------------------------------------------
// Registering a key
// ---------------------------------------------------------------------------------------------

/// Whether this is how the registration of a key starts to be finished: its slot and its name must
/// be good, and its challenge is recalled.
pub open spec fn activates(
    user_id: String,
    rp: RelyingParty,
    id: NumberOrString,
    name: String,
    device_response: RegisterPublicKeyCredential,
    out: Step,
) -> bool {
    match id.slot() {
        None => handlers::flow::fails(out, AppError::BadRequest(Refusal::KeyIdInvalid)),
        Some(slot) => if !(1 <= slot <= MAX_KEYS) {
            handlers::flow::fails(out, AppError::BadRequest(Refusal::SlotOutOfRange))
        } else if text::trimmed(name@).len() == 0 {
            handlers::flow::fails(out, AppError::BadRequest(Refusal::KeyNameRequired))
        } else {
            out == Step::Ask(
                Flow::Webauthn(
                    WebauthnFlow::Recalling {
                        job: RegistrationJob {
                            user_id,
                            rp,
                            slot: slot as i32,
                            name,
                            device_response,
                        },
                    },
                ),
                Action::Query(
                    Query::TwoFactorOfType {
                        user_id,
                        atype: TwoFactorType::WebauthnRegisterChallenge.code(),
                    },
                ),
            )
        },
    }
}

/// Starts to finish the registration of a key.
pub fn activate(
    user_id: String,
    rp: RelyingParty,
    id: NumberOrString,
    name: String,
    device_response: RegisterPublicKeyCredential,
) -> (out: Step)
    ensures
        activates(user_id, rp, id, name, device_response, out),
{
    let slot = match id.into_i32() {
        Ok(slot) => slot,
        Err(e) => return fail(e),
    };
    if !(1 <= slot && slot <= 5) {
        return fail(AppError::BadRequest(Refusal::SlotOutOfRange));
    }
    if text::trim(name.as_str()).as_str().is_empty() {
        return fail(AppError::BadRequest(Refusal::KeyNameRequired));
    }
    let query = Query::TwoFactorOfType {
        user_id: user_id.clone(),
        atype: TwoFactorType::WebauthnRegisterChallenge.to_i32(),
    };
    Step::Ask(
        Flow::Webauthn(
            WebauthnFlow::Recalling {
                job: RegistrationJob { user_id, rp, slot, name, device_response },
            },
        ),
        Action::Query(query),
    )
}

/// Whether this is what follows the client data of a registration.
pub open spec fn registers(
    job: RegistrationJob,
    challenge: RegisterChallengeState,
    client_data: Option<ClientData>,
    out: Step,
) -> bool {
    match webauthn::registered_credential(job.rp, challenge, job.device_response, client_data) {
        Err(e) => handlers::flow::fails(out, e),
        Ok(accepted) => {
            &&& out matches Step::Ask(
                Flow::Webauthn(
                    WebauthnFlow::Loading {
                        goal: WebauthnGoal::Register { user_id, slot, name, credential },
                    },
                ),
                Action::Query(query),
            )
            &&& user_id == job.user_id
            &&& slot == job.slot
            &&& name == job.name
            &&& webauthn::stores(credential, accepted)
            &&& query == (Query::TwoFactorOfType {
                user_id: job.user_id,
                atype: TwoFactorType::Webauthn.code(),
            })
        },
    }
}

/// Finishes a registration, and loads the registrations that it joins.
pub fn register(
    job: RegistrationJob,
    challenge: RegisterChallengeState,
    client_data: Option<ClientData>,
) -> (out: Step)
    ensures
        registers(job, challenge, client_data, out),
{
    match finish_registration(&job.rp, &challenge, &job.device_response, client_data) {
        Err(e) => fail(e),
        Ok(credential) => {
            let user_id = job.user_id.clone();
            load(
                user_id,
                WebauthnGoal::Register {
                    user_id: job.user_id,
                    slot: job.slot,
                    name: job.name,
                    credential,
                },
            )
        },
    }
}

/// Whether this is what follows once the challenge of a registration is gone: its client data is
/// read, where there is any.
pub open spec fn forgotten(
    job: RegistrationJob,
    challenge: RegisterChallengeState,
    out: Step,
) -> bool {
    match webauthn::b64url_bytes(job.device_response.response.client_data_json@) {
        None => registers(job, challenge, None, out),
        Some(raw) => {
            &&& out matches Step::Ask(flow, Action::ReadClientData { bytes })
            &&& flow == Flow::Webauthn(WebauthnFlow::Registering { job, challenge })
            &&& bytes@ == raw
        },
    }
}

/// Goes on once the challenge of a registration is gone.
fn forget(job: RegistrationJob, challenge: RegisterChallengeState) -> (out: Step)
    ensures
        forgotten(job, challenge, out),
{
    match client_data_bytes(job.device_response.response.client_data_json.as_str()) {
        None => register(job, challenge, None),
        Some(bytes) => Step::Ask(
            Flow::Webauthn(WebauthnFlow::Registering { job, challenge }),
            Action::ReadClientData { bytes },
        ),
    }
}

// ---------------------------------------------------------------------------------------------
// Logging in
// ---------------------------------------------------------------------------------------------

/// Asks for the record of a login challenge.
pub fn recall_login(user_id: String, rp: RelyingParty, assertion_json: String) -> (out: Step)
    ensures
        out == Step::Ask(
            Flow::Webauthn(WebauthnFlow::LoginRecalling { user_id, rp, assertion_json }),
            Action::Query(
                Query::TwoFactorOfType {
                    user_id,
                    atype: TwoFactorType::WebauthnLoginChallenge.code(),
                },
            ),
        ),
{
    let query = Query::TwoFactorOfType {
        user_id: user_id.clone(),
        atype: TwoFactorType::WebauthnLoginChallenge.to_i32(),
    };
    Step::Ask(
        Flow::Webauthn(WebauthnFlow::LoginRecalling { user_id, rp, assertion_json }),
        Action::Query(query),
    )
}

/// Whether this is what follows the client data of a login: the signature is to be verified.
pub open spec fn checks(
    user_id: String,
    rp: RelyingParty,
    state: LoginChallengeState,
    registrations: Vec<WebauthnRegistration>,
    assertion: PublicKeyCredentialAssertion,
    client_data: Option<ClientData>,
    out: Step,
) -> bool {
    match webauthn::login_check(rp, state, registrations@, Some(assertion), client_data) {
        Err(e) => handlers::flow::fails(out, e),
        Ok(view) => {
            &&& out matches Step::Ask(
                Flow::Webauthn(
                    WebauthnFlow::LoginVerifying { user_id: u, registrations: r, check },
                ),
                Action::VerifySignature { public_key, signed, signature },
            )
            &&& u == user_id
            &&& r == registrations
            &&& check@ == view
            &&& public_key@ == view.public_key
            &&& signed@ == view.signed
            &&& signature@ == view.signature
        },
    }
}

/// Checks the assertion of a login, and has its signature verified.
pub fn check_login(
    user_id: String,
    rp: RelyingParty,
    state: LoginChallengeState,
    registrations: Vec<WebauthnRegistration>,
    assertion: PublicKeyCredentialAssertion,
    client_data: Option<ClientData>,
) -> (out: Step)
    ensures
        checks(user_id, rp, state, registrations, assertion, client_data, out),
{
    match check_assertion(&rp, &state, &registrations, &Some(assertion), client_data) {
        Err(e) => fail(e),
        Ok(check) => {
            let public_key = check.public_key.clone();
            let signed = check.signed.clone();
            let signature = check.signature.clone();
            assert(public_key@ =~= check.public_key@);
            assert(signed@ =~= check.signed@);
            assert(signature@ =~= check.signature@);
            Step::Ask(
                Flow::Webauthn(WebauthnFlow::LoginVerifying { user_id, registrations, check }),
                Action::VerifySignature { public_key, signed, signature },
            )
        },
    }
}

/// Whether this is what follows the assertion of a login.
pub open spec fn asserts(
    user_id: String,
    rp: RelyingParty,
    state: LoginChallengeState,
    registrations: Vec<WebauthnRegistration>,
    found: Option<PublicKeyCredentialAssertion>,
    out: Step,
) -> bool {
    match found {
        None => handlers::flow::fails(out, AppError::BadRequest(Refusal::AssertionInvalid)),
        Some(assertion) => match webauthn::b64url_bytes(assertion.response.client_data_json@) {
            None => checks(user_id, rp, state, registrations, assertion, None, out),
            Some(raw) => {
                &&& out matches Step::Ask(flow, Action::ReadClientData { bytes })
                &&& flow == Flow::Webauthn(
                    WebauthnFlow::LoginChecking { user_id, rp, state, registrations, assertion },
                )
                &&& bytes@ == raw
            },
        },
    }
}

/// Goes on with the assertion of a login.
fn take_assertion(
    user_id: String,
    rp: RelyingParty,
    state: LoginChallengeState,
    registrations: Vec<WebauthnRegistration>,
    found: Option<PublicKeyCredentialAssertion>,
) -> (out: Step)
    ensures
        asserts(user_id, rp, state, registrations, found, out),
{
    match found {
        None => fail(AppError::BadRequest(Refusal::AssertionInvalid)),
        Some(assertion) => match client_data_bytes(assertion.response.client_data_json.as_str()) {
            None => check_login(user_id, rp, state, registrations, assertion, None),
            Some(bytes) => Step::Ask(
                Flow::Webauthn(
                    WebauthnFlow::LoginChecking { user_id, rp, state, registrations, assertion },
                ),
                Action::ReadClientData { bytes },
            ),
        },
    }
}

/// Whether this is what follows a good signature: the key is marked as used, and stored.
pub open spec fn logs_in(
    user_id: String,
    registrations: Seq<WebauthnRegistration>,
    check: SignatureCheck,
    out: Step,
) -> bool {
    match webauthn::login_end(registrations, check, Ok(())) {
        Err(e) => handlers::flow::fails(out, e),
        Ok(i) => saves_registrations(
            user_id,
            registrations.update(
                i as int,
                webauthn::after_login(registrations[i as int], check.sign_count, check.flags),
            ),
            Upkeep::Nothing,
            Ok(Reply::Done),
            out,
        ),
    }
}

/// Finishes a login whose signature is good.
fn log_in(
    user_id: String,
    registrations: Vec<WebauthnRegistration>,
    check: SignatureCheck,
) -> (out: Step)
    ensures
        logs_in(user_id, registrations@, check, out),
{
    let mut registrations = registrations;
    match finish_authentication(&mut registrations, &check, Ok(())) {
        Err(e) => fail(e),
        Ok(_) => save(
            user_id,
            TwoFactorType::Webauthn,
            Payload::Registrations(registrations),
            Upkeep::Nothing,
            Ok(Reply::Done),
        ),
    }
}

// ---------------------------------------------------------------------------------------------
// Dropping a key
// ---------------------------------------------------------------------------------------------

/// Whether this is how a key is dropped: its slot must be a number, and the record that holds it is
/// looked up.
pub open spec fn deletes(user_id: String, id: NumberOrString, out: Step) -> bool {
    match id.slot() {
        None => handlers::flow::fails(out, AppError::BadRequest(Refusal::KeyIdInvalid)),
        Some(slot) => out == Step::Ask(
            Flow::Webauthn(WebauthnFlow::Deleting { user_id, slot: slot as i32 }),
            Action::Query(Query::TwoFactorOfType { user_id, atype: TwoFactorType::Webauthn.code() }),
        ),
    }
}

/// Starts to drop a key.
pub fn delete(user_id: String, id: NumberOrString) -> (out: Step)
    ensures
        deletes(user_id, id, out),
{
    match id.into_i32() {
        Err(e) => fail(e),
        Ok(slot) => {
            let query = Query::TwoFactorOfType {
                user_id: user_id.clone(),
                atype: TwoFactorType::Webauthn.to_i32(),
            };
            Step::Ask(
                Flow::Webauthn(WebauthnFlow::Deleting { user_id, slot }),
                Action::Query(query),
            )
        },
    }
}

/// Whether this is what follows the registrations of which one is to be dropped: with the last one
/// the record goes.
pub open spec fn drops_key(
    user_id: String,
    slot: i32,
    registrations: Seq<WebauthnRegistration>,
    out: Step,
) -> bool {
    match slot_index(registrations, slot) {
        None => handlers::flow::fails(out, AppError::BadRequest(Refusal::WebauthnEntryMissing)),
        Some(i) => {
            let left = registrations.remove(i);
            exists|end: Result<Reply, AppError>|
                {
                    &&& handlers::flow::will_reply(
                        end,
                        replies::webauthn_view(left.len() > 0, left, "twoFactorU2f"@),
                    )
                    &&& #[trigger] stores_left(user_id, left, end, out)
                }
        },
    }
}

/// Whether this is how the registrations that are left are stored.
pub open spec fn stores_left(
    user_id: String,
    left: Seq<WebauthnRegistration>,
    end: Result<Reply, AppError>,
    out: Step,
) -> bool {
    if left.len() == 0 {
        handlers::commit::commits(
            seq![Write::DeleteType { user_id, atype: TwoFactorType::Webauthn.code() }],
            Upkeep::ClearRecovery { user_id },
            end,
            out,
        )
    } else {
        saves_registrations(user_id, left, Upkeep::Nothing, end, out)
    }
}

/// Drops a key.
pub fn drop_key(user_id: String, slot: i32, registrations: Vec<WebauthnRegistration>) -> (out: Step)
    ensures
        drops_key(user_id, slot, registrations@, out),
{
    let mut left = registrations;
    let i = match find_slot(&left, slot) {
        None => return fail(AppError::BadRequest(Refusal::WebauthnEntryMissing)),
        Some(i) => i,
    };
    let _ = left.remove(i);
    assert(left@ =~= registrations@.remove(i as int));
    let ghost kept = left@;
    let any = left.len() > 0;
    let end: Result<Reply, AppError> = Ok(Reply::Json(replies::jsonify_webauthn_u2f(any, &left)));
    let ghost ending = end;
    let out = if !any {
        let mut writes: Vec<Write> = Vec::new();
        writes.push(
            Write::DeleteType { user_id: user_id.clone(), atype: TwoFactorType::Webauthn.to_i32() },
        );
        assert(writes@ =~= seq![
            Write::DeleteType { user_id, atype: TwoFactorType::Webauthn.code() },
        ]);
        commit(writes, Upkeep::ClearRecovery { user_id }, end)
    } else {
        save(
            user_id,
            TwoFactorType::Webauthn,
            Payload::Registrations(left),
            Upkeep::Nothing,
            end,
        )
    };
    assert(stores_left(user_id, kept, ending, out));
    out
}

// ---------------------------------------------------------------------------------------------
// Going on
// ---------------------------------------------------------------------------------------------

/// Whether this is what follows an answer in a request about WebAuthn keys.
pub open spec fn webauthn_next(state: WebauthnFlow, event: Event, out: Step) -> bool {
    match (state, event) {
        (WebauthnFlow::Loading { goal }, Event::Row(found)) => match found {
            None => exists|none: Vec<WebauthnRegistration>|
                none@.len() == 0 && #[trigger] loaded(goal, false, none, out),
            Some(tf) => out == Step::Ask(
                Flow::Webauthn(WebauthnFlow::Reading { enabled: tf.enabled, goal }),
                Action::ReadRegistrations { text: tf.data },
            ),
        },
        (WebauthnFlow::Reading { enabled, goal }, Event::Registrations(found)) => match found {
            None => handlers::flow::fails(
                out,
                AppError::BadRequest(Refusal::WebauthnDataUnreadable),
            ),
            Some(registrations) => loaded(goal, enabled, registrations, out),
        },
        (WebauthnFlow::Recalling { job }, Event::Row(found)) => match found {
            None => handlers::flow::fails(
                out,
                AppError::BadRequest(Refusal::RegisterChallengeLost),
            ),
            Some(tf) => out == Step::Ask(
                Flow::Webauthn(WebauthnFlow::RecallingData { job }),
                Action::ReadRegisterChallenge { text: tf.data },
            ),
        },
        (WebauthnFlow::RecallingData { job }, Event::RegisterChallenge(found)) => match found {
            None => handlers::flow::fails(
                out,
                AppError::BadRequest(Refusal::RegisterChallengeLost),
            ),
            Some(challenge) => out == Step::Ask(
                Flow::Webauthn(WebauthnFlow::Forgetting { job, challenge }),
                Action::Write(
                    Write::DeleteType {
                        user_id: job.user_id,
                        atype: TwoFactorType::WebauthnRegisterChallenge.code(),
                    },
                ),
            ),
        },
        (WebauthnFlow::Forgetting { job, challenge }, Event::Done) => forgotten(
            job,
            challenge,
            out,
        ),
        (WebauthnFlow::Registering { job, challenge }, Event::ClientData(data)) => registers(
            job,
            challenge,
            data,
            out,
        ),
        (WebauthnFlow::LoginRecalling { user_id, rp, assertion_json }, Event::Row(found)) => {
            match found {
                None => handlers::flow::fails(
                    out,
                    AppError::BadRequest(Refusal::LoginChallengeLost),
                ),
                Some(tf) => out == Step::Ask(
                    Flow::Webauthn(
                        WebauthnFlow::LoginRecallingData { user_id, rp, assertion_json },
                    ),
                    Action::ReadLoginChallenge { text: tf.data },
                ),
            }
        },
        (
            WebauthnFlow::LoginRecallingData { user_id, rp, assertion_json },
            Event::LoginChallenge(found),
        ) => match found {
            None => handlers::flow::fails(out, AppError::BadRequest(Refusal::LoginChallengeLost)),
            Some(state) => out == Step::Ask(
                Flow::Webauthn(
                    WebauthnFlow::LoginForgetting { user_id, rp, assertion_json, state },
                ),
                Action::Write(
                    Write::DeleteType {
                        user_id,
                        atype: TwoFactorType::WebauthnLoginChallenge.code(),
                    },
                ),
            ),
        },
        (
            WebauthnFlow::LoginForgetting { user_id, rp, assertion_json, state },
            Event::Done,
        ) => out == Step::Ask(
            Flow::Webauthn(
                WebauthnFlow::Loading {
                    goal: WebauthnGoal::Login { user_id, rp, assertion_json, state },
                },
            ),
            Action::Query(Query::TwoFactorOfType { user_id, atype: TwoFactorType::Webauthn.code() }),
        ),
        (
            WebauthnFlow::LoginAsserting { user_id, rp, state, registrations },
            Event::Assertion(found),
        ) => asserts(user_id, rp, state, registrations, found, out),
        (
            WebauthnFlow::LoginChecking { user_id, rp, state, registrations, assertion },
            Event::ClientData(data),
        ) => checks(user_id, rp, state, registrations, assertion, data, out),
        (WebauthnFlow::LoginVerifying { user_id, registrations, check }, Event::Done) => logs_in(
            user_id,
            registrations@,
            check,
            out,
        ),
        (WebauthnFlow::Deleting { user_id, slot }, Event::Row(found)) => match found {
            None => handlers::flow::fails(out, AppError::BadRequest(Refusal::WebauthnRowMissing)),
            Some(tf) => out == Step::Ask(
                Flow::Webauthn(WebauthnFlow::DeletingData { user_id, slot }),
                Action::ReadRegistrations { text: tf.data },
            ),
        },
        (WebauthnFlow::DeletingData { user_id, slot }, Event::Registrations(found)) => match found {
            None => handlers::flow::fails(
                out,
                AppError::BadRequest(Refusal::WebauthnDataUnreadable),
            ),
            Some(registrations) => drops_key(user_id, slot, registrations@, out),
        },
        _ => handlers::flow::fails(out, AppError::Internal),
    }
}

/// What follows an answer in a request about WebAuthn keys.
pub fn webauthn_step(state: WebauthnFlow, event: Event) -> (out: Step)
    ensures
        webauthn_next(state, event, out),
{
    match (state, event) {
        (WebauthnFlow::Loading { goal }, Event::Row(found)) => match found {
            None => {
                let none: Vec<WebauthnRegistration> = Vec::new();
                let ghost empty = none;
                let out = go_on_loaded(goal, false, none);
                assert(loaded(goal, false, empty, out));
                out
            },
            Some(tf) => Step::Ask(
                Flow::Webauthn(WebauthnFlow::Reading { enabled: tf.enabled, goal }),
                Action::ReadRegistrations { text: tf.data },
            ),
        },
        (WebauthnFlow::Reading { enabled, goal }, Event::Registrations(found)) => match found {
            None => fail(AppError::BadRequest(Refusal::WebauthnDataUnreadable)),
            Some(registrations) => go_on_loaded(goal, enabled, registrations),
        },
        (WebauthnFlow::Recalling { job }, Event::Row(found)) => match found {
            None => fail(AppError::BadRequest(Refusal::RegisterChallengeLost)),
            Some(tf) => Step::Ask(
                Flow::Webauthn(WebauthnFlow::RecallingData { job }),
                Action::ReadRegisterChallenge { text: tf.data },
            ),
        },
        (WebauthnFlow::RecallingData { job }, Event::RegisterChallenge(found)) => match found {
            None => fail(AppError::BadRequest(Refusal::RegisterChallengeLost)),
            Some(challenge) => {
                let write = Write::DeleteType {
                    user_id: job.user_id.clone(),
                    atype: TwoFactorType::WebauthnRegisterChallenge.to_i32(),
                };
                Step::Ask(
                    Flow::Webauthn(WebauthnFlow::Forgetting { job, challenge }),
                    Action::Write(write),
                )
            },
        },
        (WebauthnFlow::Forgetting { job, challenge }, Event::Done) => forget(job, challenge),
        (WebauthnFlow::Registering { job, challenge }, Event::ClientData(data)) => register(
            job,
            challenge,
            data,
        ),
        (WebauthnFlow::LoginRecalling { user_id, rp, assertion_json }, Event::Row(found)) => {
            match found {
                None => fail(AppError::BadRequest(Refusal::LoginChallengeLost)),
                Some(tf) => Step::Ask(
                    Flow::Webauthn(
                        WebauthnFlow::LoginRecallingData { user_id, rp, assertion_json },
                    ),
                    Action::ReadLoginChallenge { text: tf.data },
                ),
            }
        },
        (
            WebauthnFlow::LoginRecallingData { user_id, rp, assertion_json },
            Event::LoginChallenge(found),
        ) => match found {
            None => fail(AppError::BadRequest(Refusal::LoginChallengeLost)),
            Some(state) => {
                let write = Write::DeleteType {
                    user_id: user_id.clone(),
                    atype: TwoFactorType::WebauthnLoginChallenge.to_i32(),
                };
                Step::Ask(
                    Flow::Webauthn(
                        WebauthnFlow::LoginForgetting { user_id, rp, assertion_json, state },
                    ),
                    Action::Write(write),
                )
            },
        },
        (WebauthnFlow::LoginForgetting { user_id, rp, assertion_json, state }, Event::Done) => {
            let owner = user_id.clone();
            load(owner, WebauthnGoal::Login { user_id, rp, assertion_json, state })
        },
        (
            WebauthnFlow::LoginAsserting { user_id, rp, state, registrations },
            Event::Assertion(found),
        ) => take_assertion(user_id, rp, state, registrations, found),
        (
            WebauthnFlow::LoginChecking { user_id, rp, state, registrations, assertion },
            Event::ClientData(data),
        ) => check_login(user_id, rp, state, registrations, assertion, data),
        (WebauthnFlow::LoginVerifying { user_id, registrations, check }, Event::Done) => log_in(
            user_id,
            registrations,
            check,
        ),
        (WebauthnFlow::Deleting { user_id, slot }, Event::Row(found)) => match found {
            None => fail(AppError::BadRequest(Refusal::WebauthnRowMissing)),
            Some(tf) => Step::Ask(
                Flow::Webauthn(WebauthnFlow::DeletingData { user_id, slot }),
                Action::ReadRegistrations { text: tf.data },
            ),
        },
        (WebauthnFlow::DeletingData { user_id, slot }, Event::Registrations(found)) => match found {
            None => fail(AppError::BadRequest(Refusal::WebauthnDataUnreadable)),
            Some(registrations) => drop_key(user_id, slot, registrations),
        },
        _ => fail(AppError::Internal),
    }
}

// ---------------------------------------------------------------------------------------------
// Laws
// ---------------------------------------------------------------------------------------------

/// What `elsewhere` keeps.
proof fn lemma_elsewhere(registrations: Seq<WebauthnRegistration>, slot: i32)
    ensures
        forall|i: int|
            0 <= i < elsewhere(registrations, slot).len() ==> (#[trigger] elsewhere(
                registrations,
                slot,
            )[i]).id != slot && registrations.contains(elsewhere(registrations, slot)[i]),
        forall|k: int|
            0 <= k < registrations.len() && (#[trigger] registrations[k]).id != slot ==> elsewhere(
                registrations,
                slot,
            ).contains(registrations[k]),
    decreases registrations.len(),
{
    if registrations.len() > 0 {
        let head = registrations.drop_last();
        lemma_elsewhere(head, slot);
        let kept = elsewhere(head, slot);
        let all = elsewhere(registrations, slot);
        assert forall|i: int| 0 <= i < all.len() implies (#[trigger] all[i]).id != slot
            && registrations.contains(all[i]) by {
            if i < kept.len() {
                assert(kept[i] == all[i]);
                let k = choose|k: int| 0 <= k < head.len() && head[k] == kept[i];
                assert(registrations[k] == all[i]);
            } else {
                assert(registrations[registrations.len() - 1] == all[i]);
            }
        }
        assert forall|k: int|
            0 <= k < registrations.len() && (#[trigger] registrations[k]).id
                != slot implies all.contains(registrations[k]) by {
            if k < head.len() {
                assert(head[k] == registrations[k]);
                assert(kept.contains(head[k]));
                let i = choose|i: int| 0 <= i < kept.len() && kept[i] == head[k];
                assert(all[i] == registrations[k]);
            } else {
                assert(all[all.len() - 1] == registrations[k]);
            }
        }
    }
}

/// A registration that is accepted leaves at most five keys, in the order of their slots. The new
/// key is among them and is the only one in its slot; keys in other slots stay, and no other key
/// appears.
pub proof fn law_merged_keys(
    registrations: Seq<WebauthnRegistration>,
    new: WebauthnRegistration,
    other: WebauthnRegistration,
)
    requires
        merged(registrations, new) is Ok,
    ensures
        ({
            let all = merged(registrations, new)->Ok_0;
            &&& all.len() <= MAX_KEYS
            &&& sorting::ordered(all)
            &&& all.contains(new)
            &&& all.contains(other) <==> (other == new || (other.id != new.id
                && registrations.contains(other)))
        }),
{
    let kept = elsewhere(registrations, new.id);
    let list = kept.push(new);
    let all = sorting::in_order(list);
    sorting::lemma_in_order_sorts(list);
    lemma_elsewhere(registrations, new.id);
    sorting::law_stable_sort_keeps_values(list, all, list.len() - 1);
    if all.contains(other) {
        let i = choose|i: int| 0 <= i < all.len() && all[i] == other;
        sorting::law_stable_sort_adds_nothing(list, all, i);
        let k = choose|k: int| 0 <= k < list.len() && list[k] == other;
        if k < kept.len() {
            assert(kept[k] == other);
        }
    }
    if other.id != new.id && registrations.contains(other) {
        let k = choose|k: int| 0 <= k < registrations.len() && registrations[k] == other;
        assert(kept.contains(registrations[k]));
        let m = choose|m: int| 0 <= m < kept.len() && kept[m] == other;
        assert(list[m] == other);
        sorting::law_stable_sort_keeps_values(list, all, m);
    }
}

/// No credential is registered twice: where the credentials of a user differ, they still differ once
/// another one was accepted.
pub proof fn law_merged_credentials_differ(
    registrations: Seq<WebauthnRegistration>,
    new: WebauthnRegistration,
    a: WebauthnRegistration,
    b: WebauthnRegistration,
)
    requires
        merged(registrations, new) is Ok,
        forall|i: int, j: int|
            0 <= i < registrations.len() && 0 <= j < registrations.len() && (
            #[trigger] registrations[i]).credential.cred_id@ == (
            #[trigger] registrations[j]).credential.cred_id@ ==> registrations[i]
                == registrations[j],
        (merged(registrations, new)->Ok_0).contains(a),
        (merged(registrations, new)->Ok_0).contains(b),
        a.credential.cred_id@ == b.credential.cred_id@,
    ensures
        a == b,
{
    law_merged_keys(registrations, new, a);
    law_merged_keys(registrations, new, b);
    if a != new {
        let i = choose|i: int| 0 <= i < registrations.len() && registrations[i] == a;
        assert(registrations[i].credential.cred_id@ == a.credential.cred_id@);
    }
    if b != new {
        let j = choose|j: int| 0 <= j < registrations.len() && registrations[j] == b;
        assert(registrations[j].credential.cred_id@ == b.credential.cred_id@);
    }
}

/// Where the first registration in a slot stands, none before it is in the slot.
pub proof fn lemma_slot_index(registrations: Seq<WebauthnRegistration>, slot: i32)
    ensures
        match slot_index(registrations, slot) {
            Some(i) => {
                &&& 0 <= i < registrations.len()
                &&& registrations[i].id == slot
                &&& forall|k: int| 0 <= k < i ==> (#[trigger] registrations[k]).id != slot
            },
            None => forall|k: int|
                0 <= k < registrations.len() ==> (#[trigger] registrations[k]).id != slot,
        },
    decreases registrations.len(),
{
    if registrations.len() > 0 && registrations.first().id != slot {
        let rest = registrations.drop_first();
        lemma_slot_index(rest, slot);
        assert(forall|k: int|
            0 < k < registrations.len() ==> #[trigger] registrations[k] == rest[k - 1]);
    }
}

/// Where no two keys share a slot, dropping the key of a slot leaves the others as they were, and none
/// in the slot.
pub proof fn law_dropped_key_is_gone(registrations: Seq<WebauthnRegistration>, slot: i32)
    requires
        slot_index(registrations, slot) is Some,
        forall|i: int, j: int|
            0 <= i < j < registrations.len() ==> (#[trigger] registrations[i]).id != (
            #[trigger] registrations[j]).id,
    ensures
        ({
            let left = registrations.remove(slot_index(registrations, slot)->0);
            &&& left.len() == registrations.len() - 1
            &&& slot_index(left, slot) is None
            &&& left == elsewhere(registrations, slot)
        }),
{
    let i = slot_index(registrations, slot)->0;
    lemma_slot_index(registrations, slot);
    let left = registrations.remove(i);
    lemma_slot_index(left, slot);
    lemma_remove_is_elsewhere(registrations, slot, i);
}

/// Without the only registration in a slot, what is left is elsewhere.
proof fn lemma_remove_is_elsewhere(registrations: Seq<WebauthnRegistration>, slot: i32, i: int)
    requires
        0 <= i < registrations.len(),
        registrations[i].id == slot,
        forall|k: int|
            0 <= k < registrations.len() && k != i ==> (#[trigger] registrations[k]).id != slot,
    ensures
        registrations.remove(i) == elsewhere(registrations, slot),
    decreases registrations.len(),
{
    let head = registrations.drop_last();
    if i == registrations.len() - 1 {
        lemma_elsewhere_is_all(head, slot);
        assert(registrations.remove(i) =~= head);
    } else {
        assert(forall|k: int| 0 <= k < head.len() ==> #[trigger] head[k] == registrations[k]);
        lemma_remove_is_elsewhere(head, slot, i);
        assert(registrations.remove(i) =~= head.remove(i).push(registrations.last()));
    }
}

/// Where no registration is in a slot, all are elsewhere.
pub proof fn lemma_elsewhere_is_all(registrations: Seq<WebauthnRegistration>, slot: i32)
    requires
        forall|k: int| 0 <= k < registrations.len() ==> (#[trigger] registrations[k]).id != slot,
    ensures
        elsewhere(registrations, slot) == registrations,
    decreases registrations.len(),
{
    if registrations.len() > 0 {
        let head = registrations.drop_last();
        assert(forall|k: int| 0 <= k < head.len() ==> #[trigger] head[k] == registrations[k]);
        lemma_elsewhere_is_all(head, slot);
        assert(head.push(registrations.last()) =~= registrations);
    }
}

/// What `elsewhere` does to those that share a slot, to their number, and to their order.
proof fn lemma_elsewhere_shares(s: Seq<WebauthnRegistration>, slot: i32, t: WebauthnRegistration)
    ensures
        t.id != slot ==> sorting::sharing(elsewhere(s, slot), t) == sorting::sharing(s, t),
        t.id == slot ==> sorting::sharing(elsewhere(s, slot), t) == Seq::<
            WebauthnRegistration,
        >::empty(),
        t.id == slot ==> elsewhere(s, slot).len() + sorting::sharing(s, t).len() == s.len(),
    decreases s.len(),
{
    if s.len() > 0 {
        let head = s.drop_last();
        let kept = elsewhere(head, slot);
        lemma_elsewhere_shares(head, slot, t);
        if s.last().id != slot {
            assert(kept.push(s.last()).drop_last() =~= kept);
        }
    } else {
        assert(sorting::sharing(s, t) =~= Seq::<WebauthnRegistration>::empty());
    }
}

/// `elsewhere` keeps the order.
proof fn lemma_elsewhere_ordered(s: Seq<WebauthnRegistration>, slot: i32)
    requires
        sorting::ordered(s),
    ensures
        sorting::ordered(elsewhere(s, slot)),
    decreases s.len(),
{
    if s.len() > 0 {
        let head = s.drop_last();
        let last = s.last();
        assert(sorting::ordered(head)) by {
            assert forall|i: int, j: int| 0 <= i < j < head.len() implies (
            #[trigger] head[i]).precedes(#[trigger] head[j]) by {
                assert(s[i].precedes(s[j]));
            }
        }
        lemma_elsewhere_ordered(head, slot);
        let kept = elsewhere(head, slot);
        if last.id != slot {
            lemma_elsewhere(head, slot);
            let all = kept.push(last);
            assert forall|i: int, j: int| 0 <= i < j < all.len() implies (
            #[trigger] all[i]).precedes(#[trigger] all[j]) by {
                if j < kept.len() {
                    assert(kept[i].precedes(kept[j]));
                } else {
                    assert(head.contains(kept[i]));
                    let k = choose|k: int| 0 <= k < head.len() && head[k] == kept[i];
                    assert(s[k].precedes(s[s.len() - 1]));
                }
            }
        }
    }
}

/// Each registration in a slot is one less elsewhere.
proof fn lemma_elsewhere_len(s: Seq<WebauthnRegistration>, slot: i32, i: int, j: int)
    requires
        0 <= i < j < s.len(),
        s[i].id == slot,
        s[j].id == slot,
    ensures
        elsewhere(s, slot).len() + 2 <= s.len(),
    decreases s.len(),
{
    let head = s.drop_last();
    if j < head.len() {
        lemma_elsewhere_len(head, slot, i, j);
    } else {
        lemma_elsewhere_len_one(head, slot, i);
    }
}

/// A registration in a slot is one less elsewhere.
pub proof fn lemma_elsewhere_len_one(s: Seq<WebauthnRegistration>, slot: i32, i: int)
    requires
        0 <= i < s.len(),
        s[i].id == slot,
    ensures
        elsewhere(s, slot).len() + 1 <= s.len(),
    decreases s.len(),
{
    let head = s.drop_last();
    if i < head.len() {
        lemma_elsewhere_len_one(head, slot, i);
    } else {
        lemma_elsewhere_len_at_most(head, slot);
    }
}

/// No more are elsewhere than there are.
pub proof fn lemma_elsewhere_len_at_most(s: Seq<WebauthnRegistration>, slot: i32)
    ensures
        elsewhere(s, slot).len() <= s.len(),
    decreases s.len(),
{
    if s.len() > 0 {
        lemma_elsewhere_len_at_most(s.drop_last(), slot);
    }
}

/// A key that is registered in a free slot and then dropped leaves the keys as they were.
pub proof fn law_dropping_undoes_registering(
    registrations: Seq<WebauthnRegistration>,
    new: WebauthnRegistration,
)
    requires
        merged(registrations, new) is Ok,
        sorting::ordered(registrations),
        slot_index(registrations, new.id) is None,
    ensures
        ({
            let all = merged(registrations, new)->Ok_0;
            &&& slot_index(all, new.id) is Some
            &&& all.remove(slot_index(all, new.id)->0) == registrations
        }),
{
    let slot = new.id;
    let list = registrations.push(new);
    lemma_slot_index(registrations, slot);
    lemma_elsewhere_is_all(registrations, slot);
    let all = sorting::in_order(list);
    sorting::lemma_in_order_sorts(list);
    let left = elsewhere(all, slot);
    assert(list.drop_last() =~= registrations);
    assert forall|t: WebauthnRegistration| #[trigger]
        sorting::sharing(left, t) == sorting::sharing(registrations, t) by {
        lemma_elsewhere_shares(all, slot, t);
        lemma_elsewhere_shares(registrations, slot, t);
        assert(sorting::sharing(all, t) == sorting::sharing(list, t));
    }
    lemma_elsewhere_shares(all, slot, new);
    lemma_elsewhere_shares(registrations, slot, new);
    assert(sorting::sharing(all, new) == sorting::sharing(list, new));
    assert(sorting::sharing(list, new) =~= sorting::sharing(registrations, new).push(new));
    lemma_elsewhere_ordered(all, slot);
    sorting::lemma_ordered_twins(left, registrations);
    lemma_slot_index(all, slot);
    law_merged_keys(registrations, new, new);
    let i = slot_index(all, slot)->0;
    assert forall|k: int| 0 <= k < all.len() && k != i implies (#[trigger] all[k]).id != slot by {
        if all[k].id == slot {
            if k < i {
                lemma_elsewhere_len(all, slot, k, i);
            } else {
                lemma_elsewhere_len(all, slot, i, k);
            }
        }
    }
    lemma_remove_is_elsewhere(all, slot, i);
}

} // verus!
