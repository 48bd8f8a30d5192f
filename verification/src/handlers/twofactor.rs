//! The two-factor requests, each as its first step, and which providers a user has.
use super::flow::{fail, Flow, Goal, Step, WebauthnFlow, WebauthnGoal, YubikeyJob};
use super::gate::gate;
use super::webauthn::{load, recall_login};
use crate::error::{AppError, Refusal};
use crate::exchange::Action;
use crate::models::twofactor::{
    ActivateEmailData, DeleteWebauthnData, DisableAuthenticatorData, DisableTwoFactorData,
    EnableAuthenticatorData, EnableWebauthnData, EnableYubikeyData, SendEmailData,
    SendEmailLoginData, TwoFactor, TwoFactorType,
};
use crate::models::user::PasswordOrOtpData;
use crate::sorting::sort_without_repetition;
use crate::store::Query;
use crate::webauthn::{RelyingParty, WebauthnRegistration};
use crate::yubico::{ensure_configured, YubicoSettings};
use crate::{handlers, outside, sorting, text};
use vstd::prelude::*;

verus! {

broadcast use vstd::string::group_string_axioms;

/// A two-factor record, and what was read of its data as WebAuthn registrations, if it could be.
#[derive(Debug)]
pub struct ReadTwoFactor {
    pub row: TwoFactor,
    pub registrations: Option<Vec<WebauthnRegistration>>,
}

/// Whether registrations could be read, and hold a key.
pub open spec fn holds_key(registrations: Option<Vec<WebauthnRegistration>>) -> bool {
    match registrations {
        Some(r) => r@.len() > 0,
        None => false,
    }
}

/// Whether a record is a provider that a login can use: an enabled Authenticator, Email or YubiKey
/// record, or an enabled WebAuthn record that holds a key.
pub open spec fn is_login_provider(tf: ReadTwoFactor) -> bool {
    tf.row.enabled && (tf.row.atype == TwoFactorType::Authenticator.code() || tf.row.atype
        == TwoFactorType::Email.code() || tf.row.atype == TwoFactorType::YubiKey.code() || (
    tf.row.atype == TwoFactorType::Webauthn.code() && holds_key(tf.registrations)))
}

/// Whether a record is a provider that a login can use.
pub fn login_provider(tf: &ReadTwoFactor) -> (r: bool)
    ensures
        r == is_login_provider(*tf),
{
    let has_key = match &tf.registrations {
        Some(r) => r.len() > 0,
        None => false,
    };
    tf.row.enabled && (tf.row.atype == TwoFactorType::Authenticator.to_i32() || tf.row.atype
        == TwoFactorType::Email.to_i32() || tf.row.atype == TwoFactorType::YubiKey.to_i32() || (
    tf.row.atype == TwoFactorType::Webauthn.to_i32() && has_key))
}

/// Whether the user has 2FA enabled.
///
/// Authenticator (TOTP), Email, YubiKey, and WebAuthn count. Remember-device tokens do not.
pub fn is_twofactor_enabled(twofactors: &[ReadTwoFactor]) -> (r: bool)
    ensures
        r == exists|i: int| 0 <= i < twofactors@.len() && is_login_provider(#[trigger] twofactors@[i]),
{
    let mut i: usize = 0;
    while i < twofactors.len()
        invariant
            i <= twofactors.len(),
            forall|k: int| 0 <= k < i ==> !is_login_provider(#[trigger] twofactors@[k]),
        decreases twofactors.len() - i,
    {
        if login_provider(&twofactors[i]) {
            return true;
        }
        i = i + 1;
    }
    false
}

/// Whether a number is the type of a provider that a login can use.
pub open spec fn offers(twofactors: Seq<ReadTwoFactor>, id: i32) -> bool {
    exists|i: int|
        0 <= i < twofactors.len() && is_login_provider(#[trigger] twofactors[i])
            && twofactors[i].row.atype == id
}

/// Whether numbers are in ascending order, each once.
pub open spec fn ascending(ids: Seq<i32>) -> bool {
    forall|i: int, j: int| 0 <= i < j < ids.len() ==> #[trigger] ids[i] < #[trigger] ids[j]
}

/// Enabled login providers for the two-factor challenge response: the types of the providers that a
/// login can use, in ascending order, each once.
pub fn enabled_twofactor_provider_ids(twofactors: &[ReadTwoFactor]) -> (r: Vec<i32>)
    ensures
        ascending(r@),
        forall|id: i32| #[trigger] r@.contains(id) <==> offers(twofactors@, id),
{
    let mut ids: Vec<i32> = Vec::new();
    let mut i: usize = 0;
    while i < twofactors.len()
        invariant
            i <= twofactors.len(),
            forall|k: int| 0 <= k < ids@.len() ==> offers(twofactors@, #[trigger] ids@[k]),
            forall|k: int|
                0 <= k < i && is_login_provider(#[trigger] twofactors@[k]) ==> ids@.contains(
                    twofactors@[k].row.atype,
                ),
        decreases twofactors.len() - i,
    {
        if login_provider(&twofactors[i]) {
            let ghost before = ids@;
            ids.push(twofactors[i].row.atype);
            proof {
                assert(ids@[before.len() as int] == twofactors@[i as int].row.atype);
                assert forall|k: int|
                    0 <= k < i + 1 && is_login_provider(
                        #[trigger] twofactors@[k],
                    ) implies ids@.contains(twofactors@[k].row.atype) by {
                    if k < i {
                        let m = choose|m: int|
                            0 <= m < before.len() && before[m] == twofactors@[k].row.atype;
                        assert(ids@[m] == twofactors@[k].row.atype);
                    }
                }
            }
        }
        i = i + 1;
    }
    let ghost found = ids@;
    let r = sort_without_repetition(ids);
    proof {
        assert forall|id: i32| #[trigger] r@.contains(id) <==> offers(twofactors@, id) by {
            if r@.contains(id) {
                let k = choose|k: int| 0 <= k < r@.len() && r@[k] == id;
                assert(found.contains(r@[k]));
            }
            if offers(twofactors@, id) {
                assert(found.contains(id));
                let k = choose|k: int| 0 <= k < found.len() && found[k] == id;
                assert(sorting::has_rank(r@, found[k]));
                let m = choose|m: int|
                    0 <= m < r@.len() && sorting::same_rank(#[trigger] r@[m], found[k]);
                assert(r@[m] == id);
            }
        }
    }
    r
}

/// A login is offered a provider exactly where 2FA is enabled.
pub proof fn law_providers_are_offered_when_enabled(twofactors: Seq<ReadTwoFactor>, ids: Seq<i32>)
    requires
        ascending(ids),
        forall|id: i32| #[trigger] ids.contains(id) <==> offers(twofactors, id),
    ensures
        ids.len() > 0 <==> exists|i: int|
            0 <= i < twofactors.len() && is_login_provider(#[trigger] twofactors[i]),
        ids.len() <= 4,
        forall|k: int|
            0 <= k < ids.len() ==> (#[trigger] ids[k]) == TwoFactorType::Authenticator.code()
                || ids[k] == TwoFactorType::Email.code() || ids[k] == TwoFactorType::YubiKey.code()
                || ids[k] == TwoFactorType::Webauthn.code(),
{
    if ids.len() > 0 {
        assert(ids.contains(ids[0]));
    }
    if exists|i: int| 0 <= i < twofactors.len() && is_login_provider(#[trigger] twofactors[i]) {
        let i = choose|i: int|
            0 <= i < twofactors.len() && is_login_provider(#[trigger] twofactors[i]);
        assert(offers(twofactors, twofactors[i].row.atype));
        assert(ids.contains(twofactors[i].row.atype));
    }
    assert forall|k: int| 0 <= k < ids.len() implies (#[trigger] ids[k])
        == TwoFactorType::Authenticator.code() || ids[k] == TwoFactorType::Email.code() || ids[k]
        == TwoFactorType::YubiKey.code() || ids[k] == TwoFactorType::Webauthn.code() by {
        assert(ids.contains(ids[k]));
    }
    if ids.len() > 4 {
        assert(ids[0] < ids[1] && ids[1] < ids[2] && ids[2] < ids[3] && ids[3] < ids[4]);
    }
}

/// `n` stars.
pub open spec fn stars(n: int) -> Seq<char> {
    Seq::new(n as nat, |i: int| '*')
}

/// The part of an email address before its domain, obscured: a short name is all stars, and a
/// longer one shows its first two characters.
pub open spec fn obscured_name(name: Seq<char>) -> Seq<char> {
    if 1 <= name.len() <= 3 {
        stars(name.len() as int)
    } else if name.len() == 0 {
        name
    } else {
        name.take(2) + stars(name.len() - 2)
    }
}

/// An email address as a client shows it.
pub open spec fn obscured(email: Seq<char>) -> Seq<char> {
    match text::split_at_last(email, '@') {
        None => "***"@,
        Some((name, domain)) => obscured_name(name) + "@"@ + domain,
    }
}

/// Obscure an email for client UI.
pub fn obscure_email(email: &str) -> (r: String)
    ensures
        r@ == obscured(email@),
{
    let (name, domain) = match text::rsplit_once(email, '@') {
        Some(p) => p,
        None => return "***".to_owned(),
    };
    let cs = text::chars_of(name.as_str());
    let shown: usize = if cs.len() <= 3 {
        0
    } else {
        2
    };
    let mut out = String::new();
    let mut i: usize = 0;
    while i < cs.len()
        invariant
            cs@ == name@,
            i <= cs.len(),
            shown == 0 || shown == 2,
            out@.len() == i,
            forall|k: int|
                0 <= k < i ==> #[trigger] out@[k] == (if k < shown {
                    cs@[k]
                } else {
                    '*'
                }),
        decreases cs.len() - i,
    {
        if i < shown {
            out.push(cs[i]);
        } else {
            out.push('*');
        }
        i = i + 1;
    }
    assert(out@ =~= obscured_name(name@));
    out.append("@");
    out.append(domain.as_str());
    out
}

/// An obscured address keeps the domain and the length, and shows at most the first two characters
/// of the name.
pub proof fn law_obscured_email_hides_the_name(email: Seq<char>)
    requires
        email.contains('@'),
    ensures
        ({
            let at = text::last_index(email, '@');
            &&& obscured(email).len() == email.len()
            &&& obscured(email).skip(at) == email.skip(at)
            &&& forall|i: int|
                0 <= i < at && !(i < 2 && at > 3) ==> #[trigger] obscured(email)[i] == '*'
        }),
{
    let at = text::last_index(email, '@');
    text::lemma_last_index(email, '@');
    reveal_strlit("@");
    let name = email.take(at);
    let domain = email.skip(at + 1);
    let hidden = obscured_name(name);
    assert(hidden.len() == at);
    let whole = hidden + "@"@ + domain;
    assert(obscured(email) == whole);
    assert(whole.skip(at) =~= email.skip(at));
    assert forall|i: int| 0 <= i < at && !(i < 2 && at > 3) implies #[trigger] obscured(email)[i]
        == '*' by {
        assert(whole[i] == hidden[i]);
    }
}

/// The relying party of a service at `base_url`.
pub fn relying_party_from_base(base_url: &str) -> (r: Result<RelyingParty, AppError>)
    ensures
        RelyingParty::is_at(base_url@, r),
{
    RelyingParty::from_base_url(base_url)
}

// ---------------------------------------------------------------------------------------------
// Requests
// ---------------------------------------------------------------------------------------------

/// GET /api/two-factor - Get all enabled 2FA providers for current user
pub fn get_twofactor(user_id: String) -> (out: Step)
    ensures
        out == Step::Ask(Flow::ListingProviders, Action::Query(Query::TwoFactors { user_id })),
{
    Step::Ask(Flow::ListingProviders, Action::Query(Query::TwoFactors { user_id }))
}

/// POST /api/two-factor/get-authenticator - Get or generate TOTP secret
pub fn get_authenticator(user_id: String, data: PasswordOrOtpData) -> (out: Step)
    ensures
        handlers::gate::gates(user_id, data, Goal::GetAuthenticator { user_id }, out),
{
    let owner = user_id.clone();
    gate(owner, data, Goal::GetAuthenticator { user_id })
}

/// POST /api/two-factor/authenticator - Activate TOTP
pub fn activate_authenticator(user_id: String, data: EnableAuthenticatorData) -> (out: Step)
    ensures
        handlers::gate::gates(
            user_id,
            PasswordOrOtpData { master_password_hash: data.master_password_hash, otp: data.otp },
            Goal::ActivateAuthenticator { user_id, key: data.key, token: data.token },
            out,
        ),
{
    let owner = user_id.clone();
    gate(
        owner,
        PasswordOrOtpData { master_password_hash: data.master_password_hash, otp: data.otp },
        Goal::ActivateAuthenticator { user_id, key: data.key, token: data.token },
    )
}

/// PUT /api/two-factor/authenticator - Same as POST
pub fn activate_authenticator_put(user_id: String, data: EnableAuthenticatorData) -> (out: Step)
    ensures
        handlers::gate::gates(
            user_id,
            PasswordOrOtpData { master_password_hash: data.master_password_hash, otp: data.otp },
            Goal::ActivateAuthenticator { user_id, key: data.key, token: data.token },
            out,
        ),
{
    activate_authenticator(user_id, data)
}

/// POST /api/two-factor/disable - Disable a 2FA method
pub fn disable_twofactor(user_id: String, data: DisableTwoFactorData) -> (out: Step)
    ensures
        handlers::gate::gates(
            user_id,
            PasswordOrOtpData { master_password_hash: data.master_password_hash, otp: data.otp },
            Goal::Disable { user_id, type_: data.type_ },
            out,
        ),
{
    let owner = user_id.clone();
    gate(
        owner,
        PasswordOrOtpData { master_password_hash: data.master_password_hash, otp: data.otp },
        Goal::Disable { user_id, type_: data.type_ },
    )
}

/// PUT /api/two-factor/disable - Same as POST
pub fn disable_twofactor_put(user_id: String, data: DisableTwoFactorData) -> (out: Step)
    ensures
        handlers::gate::gates(
            user_id,
            PasswordOrOtpData { master_password_hash: data.master_password_hash, otp: data.otp },
            Goal::Disable { user_id, type_: data.type_ },
            out,
        ),
{
    disable_twofactor(user_id, data)
}

/// DELETE /api/two-factor/authenticator - Disable TOTP with key verification
pub fn disable_authenticator(user_id: String, data: DisableAuthenticatorData) -> (out: Step)
    ensures
        if data.type_ != TwoFactorType::Authenticator.code() {
            handlers::flow::fails(out, AppError::BadRequest(Refusal::TypeInvalid))
        } else {
            handlers::gate::gates(
                user_id,
                PasswordOrOtpData {
                    master_password_hash: data.master_password_hash,
                    otp: data.otp,
                },
                Goal::DisableAuthenticator { user_id, key: data.key, type_: data.type_ },
                out,
            )
        },
{
    if data.type_ != TwoFactorType::Authenticator.to_i32() {
        return fail(AppError::BadRequest(Refusal::TypeInvalid));
    }
    let owner = user_id.clone();
    gate(
        owner,
        PasswordOrOtpData { master_password_hash: data.master_password_hash, otp: data.otp },
        Goal::DisableAuthenticator { user_id, key: data.key, type_: data.type_ },
    )
}

/// POST /api/two-factor/get-recover - Get recovery code
pub fn get_recover(user_id: String, data: PasswordOrOtpData) -> (out: Step)
    ensures
        handlers::gate::gates(user_id, data, Goal::GetRecover, out),
{
    gate(user_id, data, Goal::GetRecover)
}

/// POST /api/two-factor/get-email
pub fn get_email(user_id: String, data: PasswordOrOtpData) -> (out: Step)
    ensures
        handlers::gate::gates(user_id, data, Goal::GetEmail { user_id }, out),
{
    let owner = user_id.clone();
    gate(owner, data, Goal::GetEmail { user_id })
}

/// POST /api/two-factor/send-email - send ownership verification code while enabling Email 2FA.
pub fn send_email(user_id: String, data: SendEmailData) -> (out: Step)
    ensures
        handlers::gate::gates(
            user_id,
            PasswordOrOtpData { master_password_hash: data.master_password_hash, otp: data.otp },
            Goal::SendEmail { user_id, email: data.email },
            out,
        ),
{
    let owner = user_id.clone();
    gate(
        owner,
        PasswordOrOtpData { master_password_hash: data.master_password_hash, otp: data.otp },
        Goal::SendEmail { user_id, email: data.email },
    )
}

/// PUT /api/two-factor/email - confirm verification code and enable Email 2FA.
pub fn activate_email(user_id: String, data: ActivateEmailData) -> (out: Step)
    ensures
        handlers::gate::gates(
            user_id,
            PasswordOrOtpData { master_password_hash: data.master_password_hash, otp: data.otp },
            Goal::ActivateEmail { user_id, email: data.email, token: data.token },
            out,
        ),
{
    let owner = user_id.clone();
    gate(
        owner,
        PasswordOrOtpData { master_password_hash: data.master_password_hash, otp: data.otp },
        Goal::ActivateEmail { user_id, email: data.email, token: data.token },
    )
}

/// Whether this is how someone who logs in asks for a code: their account is looked up by its
/// address, where they gave one.
pub open spec fn finds_login(data: SendEmailLoginData, out: Step) -> bool {
    match data.email {
        None => handlers::flow::fails(out, AppError::Unauthorized(Refusal::LoginIncorrect)),
        Some(email) => if text::trimmed(email@).len() == 0 {
            handlers::flow::fails(out, AppError::Unauthorized(Refusal::LoginIncorrect))
        } else {
            &&& out matches Step::Ask(flow, Action::FindUserByEmail { email: e })
            &&& flow == (Flow::FindingLogin { password_hash: data.master_password_hash })
            &&& e@ == handlers::email::plain_email(email@)
        },
    }
}

/// POST /api/two-factor/send-email-login - unauthenticated; send login code after password check.
pub fn send_email_login(data: SendEmailLoginData) -> (out: Step)
    ensures
        finds_login(data, out),
{
    let email = match data.email {
        None => return fail(AppError::Unauthorized(Refusal::LoginIncorrect)),
        Some(email) => text::trim(email.as_str()),
    };
    if email.as_str().is_empty() {
        return fail(AppError::Unauthorized(Refusal::LoginIncorrect));
    }
    Step::Ask(
        Flow::FindingLogin { password_hash: data.master_password_hash },
        Action::FindUserByEmail { email: email.as_str().to_lowercase() },
    )
}

/// POST /api/two-factor/get-yubikey
pub fn get_yubikey(settings: YubicoSettings, user_id: String, data: PasswordOrOtpData) -> (out:
    Step)
    ensures
        if settings.complete() {
            handlers::gate::gates(user_id, data, Goal::GetYubikey { user_id }, out)
        } else {
            out matches Step::Done(Err(e)) && settings.faulted(e)
        },
{
    match ensure_configured(&settings) {
        Err(e) => fail(e),
        Ok(_) => {
            let owner = user_id.clone();
            gate(owner, data, Goal::GetYubikey { user_id })
        },
    }
}

/// Whether this is how YubiKeys are activated.
pub open spec fn activates_yubikeys(
    settings: YubicoSettings,
    user_id: String,
    data: EnableYubikeyData,
    out: Step,
) -> bool {
    if settings.complete() {
        &&& out matches Step::Ask(
            Flow::FindingUser { credentials, goal: Goal::ActivateYubikey { job } },
            action,
        )
        &&& action == Action::Query(Query::User { id: user_id })
        &&& credentials == (PasswordOrOtpData {
            master_password_hash: data.master_password_hash,
            otp: data.otp,
        })
        &&& job.user_id == user_id
        &&& job.settings == settings
        &&& job.rest@ == data.filled()
        &&& job.keys@.len() == 0
        &&& job.known@.len() == 0
        &&& job.nfc == data.nfc
    } else {
        out matches Step::Done(Err(e)) && settings.faulted(e)
    }
}

/// POST /api/two-factor/yubikey - verify OTPs with YubiCloud and enable YubiKey 2FA. The public ids of
/// keys that are registered already need not be verified again.
pub fn activate_yubikey(
    settings: YubicoSettings,
    user_id: String,
    data: EnableYubikeyData,
) -> (out: Step)
    ensures
        activates_yubikeys(settings, user_id, data, out),
{
    match ensure_configured(&settings) {
        Err(e) => return fail(e),
        Ok(_) => {},
    }
    let rest = data.otps();
    let owner = user_id.clone();
    gate(
        owner,
        PasswordOrOtpData { master_password_hash: data.master_password_hash, otp: data.otp },
        Goal::ActivateYubikey {
            job: YubikeyJob {
                user_id,
                settings,
                rest,
                keys: Vec::new(),
                known: Vec::new(),
                nfc: data.nfc,
            },
        },
    )
}

/// PUT /api/two-factor/yubikey - Same as POST
pub fn activate_yubikey_put(
    settings: YubicoSettings,
    user_id: String,
    data: EnableYubikeyData,
) -> (out: Step)
    ensures
        activates_yubikeys(settings, user_id, data, out),
{
    activate_yubikey(settings, user_id, data)
}

/// A request that needs to know the relying party.
#[derive(Debug)]
pub enum PartyRequest {
    Show { user_id: String, data: PasswordOrOtpData },
    Challenge { user_id: String, data: PasswordOrOtpData },
    Activate { user_id: String, body: EnableWebauthnData },
    LoginOptions { user_id: String },
    Login { user_id: String, assertion_json: String },
}

/// Whether this is how a request that needs to know the relying party starts: without one it is
/// refused.
pub open spec fn serves(
    party: Result<RelyingParty, AppError>,
    request: PartyRequest,
    out: Step,
) -> bool {
    match (party, request) {
        (Err(e), _) => handlers::flow::fails(out, e),
        (Ok(_), PartyRequest::Show { user_id, data }) => handlers::gate::gates(
            user_id,
            data,
            Goal::GetWebauthn { user_id },
            out,
        ),
        (Ok(rp), PartyRequest::Challenge { user_id, data }) => handlers::gate::gates(
            user_id,
            data,
            Goal::GetWebauthnChallenge { user_id, rp },
            out,
        ),
        (Ok(rp), PartyRequest::Activate { user_id, body }) => handlers::gate::gates(
            user_id,
            PasswordOrOtpData { master_password_hash: body.master_password_hash, otp: body.otp },
            Goal::ActivateWebauthn {
                user_id,
                rp,
                id: body.id,
                name: body.name,
                device_response: body.device_response,
            },
            out,
        ),
        (Ok(rp), PartyRequest::LoginOptions { user_id }) => out == Step::Ask(
            Flow::Webauthn(
                WebauthnFlow::Loading { goal: WebauthnGoal::LoginOptions { user_id, rp } },
            ),
            handlers::gate::asks_for(user_id, TwoFactorType::Webauthn),
        ),
        (Ok(rp), PartyRequest::Login { user_id, assertion_json }) => out == Step::Ask(
            Flow::Webauthn(WebauthnFlow::LoginRecalling { user_id, rp, assertion_json }),
            handlers::gate::asks_for(user_id, TwoFactorType::WebauthnLoginChallenge),
        ),
    }
}

/// Whether this is how a request starts for the service at `base_url`.
pub open spec fn serves_at(base_url: Seq<char>, request: PartyRequest, out: Step) -> bool {
    exists|party: Result<RelyingParty, AppError>|
        RelyingParty::is_at(base_url, party) && #[trigger] serves(party, request, out)
}

/// Starts a request that needs to know the relying party.
pub fn serve(party: Result<RelyingParty, AppError>, request: PartyRequest) -> (out: Step)
    ensures
        serves(party, request, out),
{
    let rp = match party {
        Err(e) => return fail(e),
        Ok(rp) => rp,
    };
    match request {
        PartyRequest::Show { user_id, data } => {
            let owner = user_id.clone();
            gate(owner, data, Goal::GetWebauthn { user_id })
        },
        PartyRequest::Challenge { user_id, data } => {
            let owner = user_id.clone();
            gate(owner, data, Goal::GetWebauthnChallenge { user_id, rp })
        },
        PartyRequest::Activate { user_id, body } => {
            let owner = user_id.clone();
            gate(
                owner,
                PasswordOrOtpData {
                    master_password_hash: body.master_password_hash,
                    otp: body.otp,
                },
                Goal::ActivateWebauthn {
                    user_id,
                    rp,
                    id: body.id,
                    name: body.name,
                    device_response: body.device_response,
                },
            )
        },
        PartyRequest::LoginOptions { user_id } => {
            let owner = user_id.clone();
            load(owner, WebauthnGoal::LoginOptions { user_id, rp })
        },
        PartyRequest::Login { user_id, assertion_json } => recall_login(
            user_id,
            rp,
            assertion_json,
        ),
    }
}

/// Starts a request for the service at `base_url`.
fn serve_at(base_url: &str, request: PartyRequest) -> (out: Step)
    ensures
        serves_at(base_url@, request, out),
{
    let party = relying_party_from_base(base_url);
    let ghost found = party;
    let out = serve(party, request);
    assert(serves(found, request, out));
    out
}

/// POST /api/two-factor/get-webauthn
pub fn get_webauthn(base_url: &str, user_id: String, data: PasswordOrOtpData) -> (out: Step)
    ensures
        serves_at(base_url@, PartyRequest::Show { user_id, data }, out),
{
    serve_at(base_url, PartyRequest::Show { user_id, data })
}

/// POST /api/two-factor/get-webauthn-challenge
pub fn get_webauthn_challenge(base_url: &str, user_id: String, data: PasswordOrOtpData) -> (out:
    Step)
    ensures
        serves_at(base_url@, PartyRequest::Challenge { user_id, data }, out),
{
    serve_at(base_url, PartyRequest::Challenge { user_id, data })
}

/// POST /api/two-factor/webauthn
pub fn activate_webauthn(base_url: &str, user_id: String, data: EnableWebauthnData) -> (out: Step)
    ensures
        serves_at(base_url@, PartyRequest::Activate { user_id, body: data }, out),
{
    serve_at(base_url, PartyRequest::Activate { user_id, body: data })
}

/// PUT /api/two-factor/webauthn - Same as POST
pub fn activate_webauthn_put(base_url: &str, user_id: String, data: EnableWebauthnData) -> (out:
    Step)
    ensures
        serves_at(base_url@, PartyRequest::Activate { user_id, body: data }, out),
{
    activate_webauthn(base_url, user_id, data)
}

/// Create a login challenge and persist its state. The answer is the options for the client.
pub fn generate_webauthn_login_options(base_url: &str, user_id: String) -> (out: Step)
    ensures
        serves_at(base_url@, PartyRequest::LoginOptions { user_id }, out),
{
    serve_at(base_url, PartyRequest::LoginOptions { user_id })
}

/// Validate a WebAuthn assertion for login.
pub fn validate_webauthn_login(base_url: &str, user_id: String, assertion_json: String) -> (out:
    Step)
    ensures
        serves_at(base_url@, PartyRequest::Login { user_id, assertion_json }, out),
{
    serve_at(base_url, PartyRequest::Login { user_id, assertion_json })
}

/// DELETE /api/two-factor/webauthn
pub fn delete_webauthn(user_id: String, data: DeleteWebauthnData) -> (out: Step)
    ensures
        handlers::gate::gates(
            user_id,
            PasswordOrOtpData {
                master_password_hash: Some(data.master_password_hash),
                otp: None,
            },
            Goal::DeleteWebauthn { user_id, id: data.id },
            out,
        ),
{
    let owner = user_id.clone();
    gate(
        owner,
        PasswordOrOtpData { master_password_hash: Some(data.master_password_hash), otp: None },
        Goal::DeleteWebauthn { user_id, id: data.id },
    )
}

// ---------------------------------------------------------------------------------------------
// Laws
// ---------------------------------------------------------------------------------------------

/// A login can use an enabled record of type 0, 1 or 3, and one of type 7 that holds a key; and no
/// other.
pub proof fn law_login_uses_enabled_providers(tf: ReadTwoFactor)
    ensures
        is_login_provider(tf) <==> tf.row.enabled && (tf.row.atype == 0 || tf.row.atype == 1
            || tf.row.atype == 3 || (tf.row.atype == 7 && tf.registrations is Some && (
        tf.registrations->0)@.len() > 0)),
{
}

/// A number is offered to a login exactly where it is the type of an enabled record that a login can
/// use.
pub proof fn law_offered_providers_are_had(twofactors: Seq<ReadTwoFactor>, id: i32)
    ensures
        offers(twofactors, id) <==> (id == 0 || id == 1 || id == 3 || id == 7) && exists|i: int|
            0 <= i < twofactors.len() && (#[trigger] twofactors[i]).row.atype == id
                && twofactors[i].row.enabled && (id == 7 ==> twofactors[i].registrations is Some && (
            twofactors[i].registrations->0)@.len() > 0),
{
    if offers(twofactors, id) {
        let i = choose|i: int|
            0 <= i < twofactors.len() && is_login_provider(#[trigger] twofactors[i])
                && twofactors[i].row.atype == id;
        assert(twofactors[i].row.atype == id);
    }
}

/// An obscured address with a name of more than three characters shows the first two of them, and what
/// is no address is shown as three stars.
pub proof fn law_obscured_email_shows_how_it_begins(email: Seq<char>)
    ensures
        email.contains('@') && text::last_index(email, '@') > 3 ==> obscured(email)[0] == email[0]
            && obscured(email)[1] == email[1],
        !email.contains('@') ==> obscured(email) == "***"@,
{
    text::lemma_last_index(email, '@');
}

/// Whatever a signed-in user asks for starts with their account being looked up, and keeps what they
/// gave as their password.
pub proof fn law_requests_start_with_the_account(
    user_id: String,
    credentials: PasswordOrOtpData,
    goal: Goal,
    out: Step,
)
    requires
        handlers::gate::gates(user_id, credentials, goal, out),
    ensures
        out == Step::Ask(
            Flow::FindingUser { credentials, goal },
            Action::Query(Query::User { id: user_id }),
        ),
{
}

/// Someone who logs in is looked up by the address that they gave, without white space around it and in
/// lower case, and without an address is turned away.
pub proof fn law_login_is_looked_up_by_address(data: SendEmailLoginData, out: Step)
    requires
        finds_login(data, out),
    ensures
        data.email is None ==> out == Step::Done(
            Err(AppError::Unauthorized(Refusal::LoginIncorrect)),
        ),
        data.email matches Some(email) ==> if text::trimmed(email@).len() == 0 {
            out == Step::Done(Err(AppError::Unauthorized(Refusal::LoginIncorrect)))
        } else {
            &&& out matches Step::Ask(flow, Action::FindUserByEmail { email: e })
            &&& flow == (Flow::FindingLogin { password_hash: data.master_password_hash })
            &&& e@ == outside::lowercase_of(text::trimmed(email@))
        },
{
}

/// The activation of YubiKeys takes up everything in the slots of a request that is not empty, for its
/// user, with nothing accepted yet; and without the settings of YubiCloud it is refused.
pub proof fn law_yubikey_activation_takes_up_every_slot(
    settings: YubicoSettings,
    user_id: String,
    data: EnableYubikeyData,
    out: Step,
    s: String,
)
    requires
        activates_yubikeys(settings, user_id, data, out),
    ensures
        settings.client_id.value() is Some && settings.secret_key.value() is Some ==> {
            &&& out matches Step::Ask(
                Flow::FindingUser { credentials, goal: Goal::ActivateYubikey { job } },
                action,
            )
            &&& action == Action::Query(Query::User { id: user_id })
            &&& credentials.master_password_hash == data.master_password_hash
            &&& job.user_id == user_id
            &&& job.settings == settings
            &&& job.nfc == data.nfc
            &&& job.keys@.len() == 0
            &&& job.rest@.contains(s) <==> s@.len() > 0 && (data.key1 == Some(s) || data.key2
                == Some(s) || data.key3 == Some(s) || data.key4 == Some(s) || data.key5 == Some(s))
        },
        !(settings.client_id.value() is Some && settings.secret_key.value() is Some) ==> (
        out matches Step::Done(Err(AppError::BadRequest(Refusal::SettingMissing { name }))) && (name@
            == "YUBICO_CLIENT_ID"@ || name@ == "YUBICO_SECRET_KEY"@)),
{
    crate::models::twofactor::law_every_filled_slot_counts(data, s);
}

/// A request that needs to know the relying party is refused where there is none, and otherwise starts:
/// what a signed-in user asks for with their account, and a login with the record it is about.
pub proof fn law_party_requests_start(
    party: Result<RelyingParty, AppError>,
    request: PartyRequest,
    out: Step,
)
    requires
        serves(party, request, out),
    ensures
        party matches Err(e) ==> out == Step::Done(Err(e)),
        party matches Ok(rp) ==> match request {
            PartyRequest::Show { user_id, data } => out == Step::Ask(
                Flow::FindingUser { credentials: data, goal: Goal::GetWebauthn { user_id } },
                Action::Query(Query::User { id: user_id }),
            ),
            PartyRequest::Challenge { user_id, data } => out == Step::Ask(
                Flow::FindingUser {
                    credentials: data,
                    goal: Goal::GetWebauthnChallenge { user_id, rp },
                },
                Action::Query(Query::User { id: user_id }),
            ),
            PartyRequest::Activate { user_id, body } => out == Step::Ask(
                Flow::FindingUser {
                    credentials: PasswordOrOtpData {
                        master_password_hash: body.master_password_hash,
                        otp: body.otp,
                    },
                    goal: Goal::ActivateWebauthn {
                        user_id,
                        rp,
                        id: body.id,
                        name: body.name,
                        device_response: body.device_response,
                    },
                },
                Action::Query(Query::User { id: user_id }),
            ),
            PartyRequest::LoginOptions { user_id } => out == Step::Ask(
                Flow::Webauthn(
                    WebauthnFlow::Loading { goal: WebauthnGoal::LoginOptions { user_id, rp } },
                ),
                Action::Query(Query::TwoFactorOfType { user_id, atype: 7 }),
            ),
            PartyRequest::Login { user_id, assertion_json } => out == Step::Ask(
                Flow::Webauthn(WebauthnFlow::LoginRecalling { user_id, rp, assertion_json }),
                Action::Query(Query::TwoFactorOfType { user_id, atype: 1004 }),
            ),
        },
{
}

/// Whether a request has looked up the account of a user, and keeps what they gave as their password and
/// what they asked for.
pub open spec fn waits_for_account(
    user_id: String,
    password_hash: Option<String>,
    otp: Option<String>,
    goal: Goal,
    out: Step,
) -> bool {
    out == Step::Ask(
        Flow::FindingUser {
            credentials: PasswordOrOtpData { master_password_hash: password_hash, otp },
            goal,
        },
        Action::Query(Query::User { id: user_id }),
    )
}

/// The requests about time-based codes, and those about any provider, ask for what their bodies say, for
/// their user, with the password of their body.
pub proof fn law_authenticator_requests_ask_as_their_bodies_say(
    user_id: String,
    body: PasswordOrOtpData,
    on: EnableAuthenticatorData,
    off: DisableAuthenticatorData,
    any: DisableTwoFactorData,
    out: Step,
)
    ensures
        call_ensures(get_twofactor, (user_id,), out) ==> out == Step::Ask(
            Flow::ListingProviders,
            Action::Query(Query::TwoFactors { user_id }),
        ),
        call_ensures(get_authenticator, (user_id, body), out) ==> waits_for_account(
            user_id,
            body.master_password_hash,
            body.otp,
            Goal::GetAuthenticator { user_id },
            out,
        ),
        call_ensures(get_recover, (user_id, body), out) ==> waits_for_account(
            user_id,
            body.master_password_hash,
            body.otp,
            Goal::GetRecover,
            out,
        ),
        call_ensures(activate_authenticator, (user_id, on), out) || call_ensures(
            activate_authenticator_put,
            (user_id, on),
            out,
        ) ==> waits_for_account(
            user_id,
            on.master_password_hash,
            on.otp,
            Goal::ActivateAuthenticator { user_id, key: on.key, token: on.token },
            out,
        ),
        call_ensures(disable_twofactor, (user_id, any), out) || call_ensures(
            disable_twofactor_put,
            (user_id, any),
            out,
        ) ==> waits_for_account(
            user_id,
            any.master_password_hash,
            any.otp,
            Goal::Disable { user_id, type_: any.type_ },
            out,
        ),
        call_ensures(disable_authenticator, (user_id, off), out) && off.type_ == 0
            ==> waits_for_account(
            user_id,
            off.master_password_hash,
            off.otp,
            Goal::DisableAuthenticator { user_id, key: off.key, type_: 0 },
            out,
        ),
        call_ensures(disable_authenticator, (user_id, off), out) && off.type_ != 0 ==> out
            == Step::Done(Err(AppError::BadRequest(Refusal::TypeInvalid))),
{
}

/// The requests about emailed codes ask for what their bodies say, for their user, with the password of
/// their body; and someone who logs in is looked up by their address.
pub proof fn law_email_requests_ask_as_their_bodies_say(
    user_id: String,
    body: PasswordOrOtpData,
    first: SendEmailData,
    second: ActivateEmailData,
    login: SendEmailLoginData,
    out: Step,
)
    ensures
        call_ensures(get_email, (user_id, body), out) ==> waits_for_account(
            user_id,
            body.master_password_hash,
            body.otp,
            Goal::GetEmail { user_id },
            out,
        ),
        call_ensures(send_email, (user_id, first), out) ==> waits_for_account(
            user_id,
            first.master_password_hash,
            first.otp,
            Goal::SendEmail { user_id, email: first.email },
            out,
        ),
        call_ensures(activate_email, (user_id, second), out) ==> waits_for_account(
            user_id,
            second.master_password_hash,
            second.otp,
            Goal::ActivateEmail { user_id, email: second.email, token: second.token },
            out,
        ),
        call_ensures(send_email_login, (login,), out) && login.email is Some && text::trimmed(
            (login.email->0)@,
        ).len() > 0 ==> {
            &&& out matches Step::Ask(
                Flow::FindingLogin { password_hash },
                Action::FindUserByEmail { email },
            )
            &&& password_hash == login.master_password_hash
            &&& email@ == outside::lowercase_of(text::trimmed((login.email->0)@))
        },
{
}

/// The requests about YubiKeys ask for what their bodies say, for their user, with the password of their
/// body, where YubiCloud's credentials are there.
pub proof fn law_yubikey_requests_ask_as_their_bodies_say(
    settings: YubicoSettings,
    user_id: String,
    body: PasswordOrOtpData,
    on: EnableYubikeyData,
    out: Step,
)
    requires
        settings.client_id.value() is Some,
        settings.secret_key.value() is Some,
    ensures
        call_ensures(get_yubikey, (settings, user_id, body), out) ==> waits_for_account(
            user_id,
            body.master_password_hash,
            body.otp,
            Goal::GetYubikey { user_id },
            out,
        ),
        call_ensures(activate_yubikey, (settings, user_id, on), out) || call_ensures(
            activate_yubikey_put,
            (settings, user_id, on),
            out,
        ) ==> {
            &&& out matches Step::Ask(
                Flow::FindingUser { credentials, goal: Goal::ActivateYubikey { job } },
                Action::Query(query),
            )
            &&& query == (Query::User { id: user_id })
            &&& credentials.master_password_hash == on.master_password_hash
            &&& credentials.otp == on.otp
            &&& job.user_id == user_id
            &&& job.settings == settings
            &&& job.nfc == on.nfc
        },
{
}

/// The requests about WebAuthn keys ask for what their bodies say, for their user, with the password of
/// their body, and for the relying party of the service's base URL: without one they are refused.
pub proof fn law_webauthn_requests_ask_as_their_bodies_say(
    base_url: &str,
    user_id: String,
    body: PasswordOrOtpData,
    on: EnableWebauthnData,
    off: DeleteWebauthnData,
    out: Step,
)
    ensures
        call_ensures(delete_webauthn, (user_id, off), out) ==> waits_for_account(
            user_id,
            Some(off.master_password_hash),
            None,
            Goal::DeleteWebauthn { user_id, id: off.id },
            out,
        ),
        call_ensures(get_webauthn, (base_url, user_id, body), out) ==> exists|
            party: Result<RelyingParty, AppError>,
        | #[trigger]
            RelyingParty::is_at(base_url@, party) && match party {
                Err(e) => out == Step::Done(Err(e)),
                Ok(_) => waits_for_account(
                    user_id,
                    body.master_password_hash,
                    body.otp,
                    Goal::GetWebauthn { user_id },
                    out,
                ),
            },
        call_ensures(get_webauthn_challenge, (base_url, user_id, body), out) ==> exists|
            party: Result<RelyingParty, AppError>,
        | #[trigger]
            RelyingParty::is_at(base_url@, party) && match party {
                Err(e) => out == Step::Done(Err(e)),
                Ok(rp) => waits_for_account(
                    user_id,
                    body.master_password_hash,
                    body.otp,
                    Goal::GetWebauthnChallenge { user_id, rp },
                    out,
                ),
            },
        call_ensures(activate_webauthn, (base_url, user_id, on), out) || call_ensures(
            activate_webauthn_put,
            (base_url, user_id, on),
            out,
        ) ==> exists|party: Result<RelyingParty, AppError>| #[trigger]
            RelyingParty::is_at(base_url@, party) && match party {
                Err(e) => out == Step::Done(Err(e)),
                Ok(rp) => waits_for_account(
                    user_id,
                    on.master_password_hash,
                    on.otp,
                    Goal::ActivateWebauthn {
                        user_id,
                        rp,
                        id: on.id,
                        name: on.name,
                        device_response: on.device_response,
                    },
                    out,
                ),
            },
{
}

/// A login with a WebAuthn key asks for the keys of its user, or for the challenge that it answers, and
/// for the relying party of the service's base URL: without one it is refused.
pub proof fn law_webauthn_logins_ask_for_their_user(
    base_url: &str,
    user_id: String,
    assertion_json: String,
    out: Step,
)
    ensures
        call_ensures(generate_webauthn_login_options, (base_url, user_id), out) ==> exists|
            party: Result<RelyingParty, AppError>,
        | #[trigger]
            RelyingParty::is_at(base_url@, party) && match party {
                Err(e) => out == Step::Done(Err(e)),
                Ok(rp) => out == Step::Ask(
                    Flow::Webauthn(
                        WebauthnFlow::Loading { goal: WebauthnGoal::LoginOptions { user_id, rp } },
                    ),
                    Action::Query(Query::TwoFactorOfType { user_id, atype: 7 }),
                ),
            },
        call_ensures(validate_webauthn_login, (base_url, user_id, assertion_json), out) ==> exists|
            party: Result<RelyingParty, AppError>,
        | #[trigger]
            RelyingParty::is_at(base_url@, party) && match party {
                Err(e) => out == Step::Done(Err(e)),
                Ok(rp) => out == Step::Ask(
                    Flow::Webauthn(WebauthnFlow::LoginRecalling { user_id, rp, assertion_json }),
                    Action::Query(Query::TwoFactorOfType { user_id, atype: 1004 }),
                ),
            },
{
}

/// What is answered about the providers of a user is what their records hold: 2FA is enabled exactly
/// where a login can use one of them, and the types of those are offered, each once, the least first.
pub proof fn law_answers_about_providers_go_by_the_records(
    twofactors: &[ReadTwoFactor],
    enabled: bool,
    ids: Vec<i32>,
    id: i32,
)
    requires
        call_ensures(is_twofactor_enabled, (twofactors,), enabled),
        call_ensures(enabled_twofactor_provider_ids, (twofactors,), ids),
    ensures
        enabled <==> ids@.len() > 0,
        ids@.contains(id) <==> (id == 0 || id == 1 || id == 3 || id == 7) && exists|i: int|
            0 <= i < twofactors@.len() && (#[trigger] twofactors@[i]).row.atype == id
                && twofactors@[i].row.enabled && (id == 7 ==> twofactors@[i].registrations is Some && (
            twofactors@[i].registrations->0)@.len() > 0),
        forall|i: int, j: int| 0 <= i < j < ids@.len() ==> #[trigger] ids@[i] < #[trigger] ids@[j],
{
    law_providers_are_offered_when_enabled(twofactors@, ids@);
    law_offered_providers_are_had(twofactors@, id);
    let given = (twofactors,);
    assert(call_ensures(is_twofactor_enabled, given, enabled));
    if exists|i: int| 0 <= i < twofactors@.len() && is_login_provider(#[trigger] twofactors@[i]) {
        let i = choose|i: int|
            0 <= i < twofactors@.len() && is_login_provider(#[trigger] twofactors@[i]);
        assert(is_login_provider(given.0@[i]));
        assert(enabled);
    }
}

/// What a client is shown of an address has its length and its domain, and of the name at most how it
/// begins.
pub proof fn law_shown_address_hides_the_name(email: &str, shown: String)
    requires
        call_ensures(obscure_email, (email,), shown),
        email@.contains('@'),
    ensures
        ({
            let at = text::last_index(email@, '@');
            &&& shown@.len() == email@.len()
            &&& shown@.skip(at) == email@.skip(at)
            &&& forall|i: int|
                0 <= i < at ==> #[trigger] shown@[i] == (if i < 2 && at > 3 {
                    email@[i]
                } else {
                    '*'
                })
        }),
{
    law_obscured_email_hides_the_name(email@);
    law_obscured_email_shows_how_it_begins(email@);
}

} // verus!
