//! What each step of a request makes of the answer it was given.
use super::flow::{
    Commit, EmailFlow, Flow, Goal, RegistrationJob, Step, TotpFlow, Upkeep, WebauthnFlow,
    WebauthnGoal, YubikeyFlow, YubikeyJob,
};
use super::gate::Run;
use crate::cbor::CborItemView;
use crate::error::{AppError, Refusal};
use crate::exchange::{Action, Event, Payload, Reply};
use crate::json::{Json, JsonView};
use crate::models::twofactor::{
    EmailTokenData, NumberOrString, TwoFactor, TwoFactorType, YubikeyMetadata,
};
use crate::models::user::{PasswordOrOtpData, User};
use crate::store::{Query, Write};
use crate::webauthn::{
    ClientData, LoginChallengeState, PublicKeyCredentialAssertion, RegisterChallengeState,
    RelyingParty, SignatureCheck, WebauthnRegistration,
};
use super::yubikey::Scan;
use crate::yubico::{OtpCheck, OtpStep};
use crate::{cbor, handlers, json, outside, text, webauthn, yubico};
use vstd::prelude::*;

verus! {

broadcast use {vstd::string::group_string_axioms, json::lemma_last_value_push};

// ---------------------------------------------------------------------------------------------
// WebAuthn keys
// ---------------------------------------------------------------------------------------------

/// A user without a record of keys is one who has no keys, and for whom they are not enabled.
pub proof fn law_no_record_is_no_keys(goal: WebauthnGoal, out: Step) -> (none: Vec<
    WebauthnRegistration,
>)
    requires
        handlers::gate::next(
            Flow::Webauthn(WebauthnFlow::Loading { goal }),
            Event::Row(None),
            out,
        ),
    ensures
        none@.len() == 0,
        handlers::gate::next(
            Flow::Webauthn(WebauthnFlow::Reading { enabled: false, goal }),
            Event::Registrations(Some(none)),
            out,
        ),
{
    choose|none: Vec<WebauthnRegistration>|
        none@.len() == 0 && #[trigger] handlers::webauthn::loaded(goal, false, none, out)
}

/// A login whose signature is good succeeds, and has the key's new counter and flags stored, in every
/// case but one: that both counters are in use and the new one is no greater than the stored one.
/// The other keys are stored as they were.
pub proof fn law_good_signature_logs_in(
    user_id: String,
    registrations: Vec<WebauthnRegistration>,
    check: SignatureCheck,
    out: Step,
)
    requires
        check.index < registrations@.len(),
        handlers::gate::next(
            Flow::Webauthn(WebauthnFlow::LoginVerifying { user_id, registrations, check }),
            Event::Done,
            out,
        ),
    ensures
        ({
            let i = check.index as int;
            let stored = registrations@[i].credential.sign_count;
            let new = check.sign_count;
            if stored > 0 && new > 0 && new <= stored {
                out == Step::Done(Err(AppError::BadRequest(Refusal::CounterMismatch)))
            } else {
                &&& out matches Step::Ask(flow, Action::Encode(Payload::Registrations(kept)))
                &&& flow == Flow::Commit(
                    Commit::Saving {
                        user_id,
                        atype: TwoFactorType::Webauthn,
                        upkeep: Upkeep::Nothing,
                        end: Ok(Reply::Done),
                    },
                )
                &&& kept@.len() == registrations@.len()
                &&& kept@[i].credential.sign_count == new
                &&& kept@[i].credential.backup_state == (check.flags & 0x10 != 0)
                &&& kept@[i].credential.backup_eligible == (
                registrations@[i].credential.backup_eligible || check.flags & 0x08 != 0)
                &&& kept@[i].credential.cred_id == registrations@[i].credential.cred_id
                &&& kept@[i].credential.public_key == registrations@[i].credential.public_key
                &&& kept@[i].id == registrations@[i].id
                &&& kept@[i].name == registrations@[i].name
                &&& forall|k: int|
                    0 <= k < kept@.len() && k != i ==> #[trigger] kept@[k] == registrations@[k]
            }
        }),
{
}

/// A registration starts unless no random numbers could be drawn. Its challenge of 32 random bytes is
/// stored, and the same challenge is answered, with the relying party and the user that it is for. The user goes by the bytes of
/// their UUID, or, where their id is none, by those of its text.
pub proof fn law_registration_is_for_its_user(
    user_id: String,
    rp: RelyingParty,
    user: User,
    enabled: bool,
    registrations: Vec<WebauthnRegistration>,
    out: Step,
)
    requires
        handlers::gate::next(
            Flow::Webauthn(
                WebauthnFlow::Reading {
                    enabled,
                    goal: WebauthnGoal::Challenge { user_id, rp, user },
                },
            ),
            Event::Registrations(Some(registrations)),
            out,
        ),
    ensures
        (out == Step::Done(Err(AppError::Internal)) && outside::drawn(32, None)) || ({
            &&& out matches Step::Ask(
                Flow::Commit(
                    Commit::Saving { user_id: u, atype, upkeep, end: Ok(Reply::Json(options)) },
                ),
                Action::Encode(Payload::RegisterChallenge(state)),
            )
            &&& u == user_id
            &&& atype == TwoFactorType::WebauthnRegisterChallenge
            &&& upkeep == Upkeep::Nothing
            &&& webauthn::b64url_bytes(state.challenge@) matches Some(bytes) && bytes.len() == 32
                && outside::drawn(32, Some(bytes))
            &&& json::value_under(options@, "challenge"@) == Some(JsonView::Text(state.challenge@))
            &&& json::value_under(options@, "rp"@) matches Some(party) && json::value_under(
                party,
                "id"@,
            ) == Some(JsonView::Text(rp.rp_id@)) && json::value_under(party, "name"@) == Some(
                JsonView::Text(rp.name@),
            )
            &&& json::value_under(options@, "user"@) matches Some(owner) && json::value_under(
                owner,
                "id"@,
            ) == Some(JsonView::Text(state.user_handle@)) && json::value_under(owner, "name"@)
                == Some(JsonView::Text(user.email@)) && json::value_under(owner, "displayName"@)
                == Some(
                JsonView::Text(
                    if user.name matches Some(n) && n@.len() > 0 {
                        user.name->0@
                    } else {
                        user.email@
                    },
                ),
            )
            &&& webauthn::b64url_bytes(state.user_handle@) == Some(
                match outside::uuid_decoded(user.id@) {
                    Some(uuid) => uuid,
                    None => vstd::utf8::encode_utf8(user.id@),
                },
            )
        }),
{
    reveal_options();
    let goal = WebauthnGoal::Challenge { user_id, rp, user };
    assert(handlers::webauthn::loaded(goal, enabled, registrations, out));
}

/// The lengths of the names in options, by which they differ, but for two.
proof fn reveal_options()
    ensures
        "challenge"@.len() == 9,
        "rp"@.len() == 2,
        "user"@.len() == 4,
        "pubKeyCredParams"@.len() == 16,
        "timeout"@.len() == 7,
        "attestation"@.len() == 11,
        "excludeCredentials"@.len() == 18,
        "authenticatorSelection"@.len() == 22,
        "status"@.len() == 6,
        "errorMessage"@.len() == 12,
        "name"@.len() == 4,
        "id"@.len() == 2,
        "displayName"@.len() == 11,
        "type"@.len() == 4,
        "alg"@.len() == 3,
        "userVerification"@.len() == 16,
        "requireResidentKey"@.len() == 18,
        "residentKey"@.len() == 11,
        "rpId"@.len() == 4,
        "allowCredentials"@.len() == 16,
        "extensions"@.len() == 10,
        "userVerification"@ != "allowCredentials"@,
{
    reveal_strlit("challenge");
    reveal_strlit("rp");
    reveal_strlit("user");
    reveal_strlit("pubKeyCredParams");
    reveal_strlit("timeout");
    reveal_strlit("attestation");
    reveal_strlit("excludeCredentials");
    reveal_strlit("authenticatorSelection");
    reveal_strlit("status");
    reveal_strlit("errorMessage");
    reveal_strlit("name");
    reveal_strlit("id");
    reveal_strlit("displayName");
    reveal_strlit("type");
    reveal_strlit("alg");
    reveal_strlit("userVerification");
    reveal_strlit("requireResidentKey");
    reveal_strlit("residentKey");
    reveal_strlit("rpId");
    reveal_strlit("allowCredentials");
    reveal_strlit("extensions");
    assert("userVerification"@[0] == 'u' && "allowCredentials"@[0] == 'a');
}

/// Whether an entry of a list names a credential to a client.
pub open spec fn names_credential(entry: JsonView, cred_id: Seq<char>) -> bool {
    &&& json::value_under(entry, "type"@) == Some(JsonView::Text("public-key"@))
    &&& json::value_under(entry, "id"@) == Some(JsonView::Text(cred_id))
}

/// A registration that starts asks for a kind of key that a registration accepts: the algorithm
/// offered is the one, and the only one, that a COSE key may name. It leaves out the keys that the
/// user has already, each by its credential id, and asks for no attestation and no user verification.
pub proof fn law_registration_offers_what_it_accepts(
    user_id: String,
    rp: RelyingParty,
    user: User,
    enabled: bool,
    registrations: Vec<WebauthnRegistration>,
    key: Seq<(CborItemView, CborItemView)>,
    out: Step,
)
    requires
        handlers::gate::next(
            Flow::Webauthn(
                WebauthnFlow::Reading {
                    enabled,
                    goal: WebauthnGoal::Challenge { user_id, rp, user },
                },
            ),
            Event::Registrations(Some(registrations)),
            out,
        ),
    ensures
        (out == Step::Done(Err(AppError::Internal)) && outside::drawn(32, None)) || ({
            &&& out matches Step::Ask(
                Flow::Commit(Commit::Saving { end: Ok(Reply::Json(options)), .. }),
                _,
            )
            &&& json::value_under(options@, "pubKeyCredParams"@) matches Some(
                JsonView::Array(params),
            ) && params.len() == 1 && json::value_under(params[0], "type"@) == Some(
                JsonView::Text("public-key"@),
            ) && (json::value_under(params[0], "alg"@) matches Some(JsonView::Int(alg)) && alg == -7
                && (cbor::entry_under(key, CborItemView::Integer(3)) matches Some(
                CborItemView::Integer(named),
            ) ==> (webauthn::cose_alg(key) is Ok <==> named == alg)))
            &&& json::value_under(options@, "excludeCredentials"@) matches Some(
                JsonView::Array(listed),
            ) && listed.len() == registrations@.len() && forall|i: int|
                0 <= i < listed.len() ==> names_credential(
                    #[trigger] listed[i],
                    registrations@[i].credential.cred_id@,
                )
            &&& json::value_under(options@, "attestation"@) == Some(JsonView::Text("none"@))
            &&& json::value_under(options@, "timeout"@) == Some(JsonView::Int(60000))
            &&& json::value_under(options@, "status"@) == Some(JsonView::Text("ok"@))
            &&& json::value_under(options@, "errorMessage"@) == Some(JsonView::Text(""@))
            &&& json::value_under(options@, "authenticatorSelection"@) matches Some(selection)
                && json::value_under(selection, "userVerification"@) == Some(
                JsonView::Text("discouraged"@),
            ) && json::value_under(selection, "requireResidentKey"@) == Some(JsonView::Bool(false))
                && json::value_under(selection, "residentKey"@) == Some(
                JsonView::Text("discouraged"@),
            )
        }),
{
    reveal_options();
    let goal = WebauthnGoal::Challenge { user_id, rp, user };
    assert(handlers::webauthn::loaded(goal, enabled, registrations, out));
}

/// A login with a key starts for a user who has one, unless no random numbers could be drawn. Its
/// challenge of 32 random bytes is stored, with
/// the ids of all the user's credentials, and the same challenge and ids are answered, for the
/// relying party.
pub proof fn law_login_options_name_every_key(
    user_id: String,
    rp: RelyingParty,
    enabled: bool,
    registrations: Vec<WebauthnRegistration>,
    out: Step,
)
    requires
        handlers::gate::next(
            Flow::Webauthn(
                WebauthnFlow::Reading {
                    enabled,
                    goal: WebauthnGoal::LoginOptions { user_id, rp },
                },
            ),
            Event::Registrations(Some(registrations)),
            out,
        ),
    ensures
        registrations@.len() == 0 ==> out == Step::Done(
            Err(AppError::BadRequest(Refusal::NoDevices)),
        ),
        registrations@.len() > 0 ==> (out == Step::Done(Err(AppError::Internal)) && outside::drawn(
            32,
            None,
        )) || ({
            &&& out matches Step::Ask(
                Flow::Commit(
                    Commit::Saving { user_id: u, atype, upkeep, end: Ok(Reply::Json(options)) },
                ),
                Action::Encode(Payload::LoginChallenge(state)),
            )
            &&& u == user_id
            &&& atype == TwoFactorType::WebauthnLoginChallenge
            &&& upkeep == Upkeep::Nothing
            &&& webauthn::b64url_bytes(state.challenge@) matches Some(bytes) && bytes.len() == 32
                && outside::drawn(32, Some(bytes))
            &&& state.allow_credential_ids@.len() == registrations@.len()
            &&& forall|i: int|
                0 <= i < registrations@.len() ==> #[trigger] state.allow_credential_ids@[i]
                    == registrations@[i].credential.cred_id
            &&& json::value_under(options@, "challenge"@) == Some(JsonView::Text(state.challenge@))
            &&& json::value_under(options@, "timeout"@) == Some(JsonView::Int(60000))
            &&& json::value_under(options@, "rpId"@) == Some(JsonView::Text(rp.rp_id@))
            &&& json::value_under(options@, "userVerification"@) == Some(
                JsonView::Text("discouraged"@),
            )
            &&& json::value_under(options@, "allowCredentials"@) matches Some(
                JsonView::Array(listed),
            ) && listed.len() == registrations@.len() && forall|i: int|
                0 <= i < listed.len() ==> names_credential(
                    #[trigger] listed[i],
                    registrations@[i].credential.cred_id@,
                )
            &&& json::value_under(options@, "extensions"@) matches Some(extensions) && (
            rp.origin@.len() > 0 && rp.origin@.last() != '/' ==> json::value_under(
                extensions,
                "appid"@,
            ) == Some(JsonView::Text(rp.origin@ + "/app-id.json"@)))
        }),
{
    reveal_options();
    let goal = WebauthnGoal::LoginOptions { user_id, rp };
    assert(handlers::webauthn::loaded(goal, enabled, registrations, out));
}

/// Whether a document shows keys: each by its slot, its name and whether it was migrated.
pub open spec fn shows_keys(document: JsonView, keys: Seq<WebauthnRegistration>) -> bool {
    json::value_under(document, "keys"@) matches Some(JsonView::Array(shown)) && shown.len()
        == keys.len() && forall|i: int|
        0 <= i < keys.len() ==> {
            &&& json::value_under(#[trigger] shown[i], "id"@) == Some(
                JsonView::Int(keys[i].id as int),
            )
            &&& json::value_under(shown[i], "name"@) == Some(JsonView::Text(keys[i].name@))
            &&& json::value_under(shown[i], "migrated"@) == Some(JsonView::Bool(keys[i].migrated))
        }
}

/// What a document of the WebAuthn provider holds under its names.
proof fn lemma_webauthn_document(
    enabled: bool,
    keys: Seq<WebauthnRegistration>,
    object: Seq<char>,
)
    ensures
        ({
            let document = handlers::replies::webauthn_view(enabled, keys, object);
            &&& json::value_under(document, "enabled"@) == Some(JsonView::Bool(enabled))
            &&& shows_keys(document, keys)
            &&& json::value_under(document, "object"@) == Some(JsonView::Text(object))
        }),
{
    reveal_strlit("enabled");
    reveal_strlit("keys");
    reveal_strlit("object");
    reveal_strlit("id");
    reveal_strlit("name");
    reveal_strlit("migrated");
    assert("enabled"@.len() == 7 && "keys"@.len() == 4 && "object"@.len() == 6);
    assert("id"@.len() == 2 && "name"@.len() == 4 && "migrated"@.len() == 8);
    let document = handlers::replies::webauthn_view(enabled, keys, object);
    let shown = Seq::new(keys.len(), |i: int| keys[i].client_view());
    assert(json::value_under(document, "keys"@) == Some(JsonView::Array(shown)));
    assert forall|i: int| 0 <= i < keys.len() implies {
        &&& json::value_under(#[trigger] shown[i], "id"@) == Some(JsonView::Int(keys[i].id as int))
        &&& json::value_under(shown[i], "name"@) == Some(JsonView::Text(keys[i].name@))
        &&& json::value_under(shown[i], "migrated"@) == Some(JsonView::Bool(keys[i].migrated))
    } by {
        assert(shown[i] == keys[i].client_view());
    }
}

/// A user is shown the keys that they have registered, and whether they are enabled.
pub proof fn law_keys_are_shown(enabled: bool, registrations: Vec<WebauthnRegistration>, out: Step)
    requires
        handlers::gate::next(
            Flow::Webauthn(WebauthnFlow::Reading { enabled, goal: WebauthnGoal::Show }),
            Event::Registrations(Some(registrations)),
            out,
        ),
    ensures
        out matches Step::Done(Ok(Reply::Json(document))) && json::value_under(
            document@,
            "enabled"@,
        ) == Some(JsonView::Bool(enabled)) && shows_keys(document@, registrations@)
            && json::value_under(document@, "object"@) == Some(
            JsonView::Text("twoFactorWebAuthn"@),
        ),
{
    lemma_webauthn_document(enabled, registrations@, "twoFactorWebAuthn"@);
}

/// A credential joins the keys of a user unless it is registered already, or there is no room: five
/// keys can be had, and one in the same slot makes room by being replaced. What is stored is the new
/// key, under its slot and name, and every key of another slot, in the order of the slots; and that is
/// what the user is shown. Whoever has a key has a recovery code.
pub proof fn law_key_joins_the_others(
    user_id: String,
    slot: i32,
    name: String,
    credential: crate::webauthn::StoredCredential,
    enabled: bool,
    registrations: Vec<WebauthnRegistration>,
    out: Step,
    other: WebauthnRegistration,
)
    requires
        handlers::gate::next(
            Flow::Webauthn(
                WebauthnFlow::Reading {
                    enabled,
                    goal: WebauthnGoal::Register { user_id, slot, name, credential },
                },
            ),
            Event::Registrations(Some(registrations)),
            out,
        ),
    ensures
        ({
            let taken = exists|i: int|
                0 <= i < registrations@.len() && (
                #[trigger] registrations@[i]).credential.cred_id@ == credential.cred_id@;
            let occupied = exists|i: int|
                0 <= i < registrations@.len() && (#[trigger] registrations@[i]).id == slot;
            let new = WebauthnRegistration { id: slot, name, migrated: false, credential };
            &&& taken ==> out == Step::Done(
                Err(AppError::BadRequest(Refusal::CredentialAlreadyRegistered)),
            )
            &&& !taken && !occupied && registrations@.len() >= 5 ==> out == Step::Done(
                Err(AppError::BadRequest(Refusal::TooManyKeys)),
            )
            &&& !taken && (registrations@.len() < 5 || (occupied && registrations@.len() == 5))
                ==> {
                &&& out matches Step::Ask(
                    Flow::Commit(
                        Commit::Saving { user_id: u, atype, upkeep, end: Ok(Reply::Json(reply)) },
                    ),
                    Action::Encode(Payload::Registrations(kept)),
                )
                &&& u == user_id
                &&& atype == TwoFactorType::Webauthn
                &&& upkeep == (Upkeep::IssueRecovery { user_id })
                &&& kept@.contains(other) <==> other == new || (other.id != slot
                    && registrations@.contains(other))
                &&& forall|i: int, j: int|
                    0 <= i < j < kept@.len() ==> (#[trigger] kept@[i]).id <= (
                    #[trigger] kept@[j]).id
                &&& kept@.len() <= 5
                &&& json::value_under(reply@, "enabled"@) == Some(JsonView::Bool(true))
                &&& shows_keys(reply@, kept@)
                &&& json::value_under(reply@, "object"@) == Some(JsonView::Text("twoFactorU2f"@))
            }
        }),
{
    let new = WebauthnRegistration { id: slot, name, migrated: false, credential };
    let all = registrations@;
    handlers::webauthn::lemma_elsewhere_len_at_most(all, slot);
    if exists|i: int| 0 <= i < all.len() && (#[trigger] all[i]).id == slot {
        let i = choose|i: int| 0 <= i < all.len() && (#[trigger] all[i]).id == slot;
        handlers::webauthn::lemma_elsewhere_len_one(all, slot, i);
    } else {
        handlers::webauthn::lemma_elsewhere_is_all(all, slot);
    }
    assert(handlers::webauthn::registers_key(user_id, all, new, out));
    if let Ok(kept) = handlers::webauthn::merged(all, new) {
        handlers::webauthn::law_merged_keys(all, new, other);
        lemma_webauthn_document(true, kept, "twoFactorU2f"@);
    }
}

/// Dropping the key of a slot takes the first key that is in it, and leaves the others as they were:
/// they are stored, or, where none is left, the record goes, and a recovery code that no provider
/// needs goes with it. The user is shown what is left.
pub proof fn law_key_is_dropped(
    user_id: String,
    slot: i32,
    registrations: Vec<WebauthnRegistration>,
    out: Step,
)
    requires
        handlers::gate::next(
            Flow::Webauthn(WebauthnFlow::DeletingData { user_id, slot }),
            Event::Registrations(Some(registrations)),
            out,
        ),
    ensures
        (forall|k: int| 0 <= k < registrations@.len() ==> (#[trigger] registrations@[k]).id != slot)
            ==> out == Step::Done(Err(AppError::BadRequest(Refusal::WebauthnEntryMissing))),
        forall|i: int|
            0 <= i < registrations@.len() && (#[trigger] registrations@[i]).id == slot && (forall|
                k: int,
            |
                0 <= k < i ==> (#[trigger] registrations@[k]).id != slot) ==> drops_at(
                user_id,
                registrations@,
                i,
                out,
            ),
{
    let all = registrations@;
    handlers::webauthn::lemma_slot_index(all, slot);
    if let Some(f) = handlers::webauthn::slot_index(all, slot) {
        let left = all.remove(f);
        let end = choose|end: Result<Reply, AppError>|
            handlers::flow::will_reply(
                end,
                handlers::replies::webauthn_view(left.len() > 0, left, "twoFactorU2f"@),
            ) && #[trigger] handlers::webauthn::stores_left(user_id, left, end, out);
        assert(handlers::webauthn::stores_left(user_id, left, end, out));
        lemma_webauthn_document(left.len() > 0, left, "twoFactorU2f"@);
        assert(drops_at(user_id, all, f, out));
        assert forall|i: int|
            0 <= i < all.len() && (#[trigger] all[i]).id == slot && (forall|k: int|
                0 <= k < i ==> (#[trigger] all[k]).id != slot) implies drops_at(
            user_id,
            all,
            i,
            out,
        ) by {
            if i < f {
                assert(all[i].id != slot);
            } else if f < i {
                assert(all[f].id != slot);
            }
        }
    }
}

/// Whether a request stores, and shows, what is left of keys without the one at `i`.
pub open spec fn drops_at(
    user_id: String,
    keys: Seq<WebauthnRegistration>,
    i: int,
    out: Step,
) -> bool {
    let left = keys.remove(i);
    let document = match out {
        Step::Ask(Flow::Commit(Commit::Saving { end: Ok(Reply::Json(reply)), .. }), _) => reply@,
        Step::Ask(Flow::Commit(Commit::Writing { end: Ok(Reply::Json(reply)), .. }), _) => reply@,
        _ => JsonView::Null,
    };
    &&& if left.len() == 0 {
        &&& out matches Step::Ask(Flow::Commit(Commit::Writing { writes, upkeep, .. }), action)
        &&& writes@.len() == 0
        &&& upkeep == (Upkeep::ClearRecovery { user_id })
        &&& action == Action::Write(Write::DeleteType { user_id, atype: 7 })
    } else {
        &&& out matches Step::Ask(
            Flow::Commit(Commit::Saving { user_id: u, atype, upkeep, .. }),
            Action::Encode(Payload::Registrations(kept)),
        )
        &&& u == user_id
        &&& atype == TwoFactorType::Webauthn
        &&& upkeep == Upkeep::Nothing
        &&& kept@ == left
    }
    &&& json::value_under(document, "enabled"@) == Some(JsonView::Bool(left.len() > 0))
    &&& json::value_under(document, "object"@) == Some(JsonView::Text("twoFactorU2f"@))
    &&& shows_keys(document, left)
}

/// A key is registered in one of the slots 1 to 5, and under a name that is not blank; the slot may
/// be any number that fits, and everything else is refused before the challenge is looked for.
pub proof fn law_slots_are_one_to_five(
    user: User,
    user_id: String,
    rp: RelyingParty,
    n: i64,
    name: String,
    device_response: crate::webauthn::RegisterPublicKeyCredential,
    out: Step,
)
    requires
        handlers::gate::next(
            Flow::CheckingPassword {
                user,
                goal: Goal::ActivateWebauthn {
                    user_id,
                    rp,
                    id: NumberOrString::Number(n),
                    name,
                    device_response,
                },
            },
            Event::Password(true),
            out,
        ),
    ensures
        n < -2147483648 || n > 2147483647 ==> out == Step::Done(
            Err(AppError::BadRequest(Refusal::KeyIdInvalid)),
        ),
        -2147483648 <= n < 1 || 5 < n <= 2147483647 ==> out == Step::Done(
            Err(AppError::BadRequest(Refusal::SlotOutOfRange)),
        ),
        1 <= n <= 5 && text::trimmed(name@).len() == 0 ==> out == Step::Done(
            Err(AppError::BadRequest(Refusal::KeyNameRequired)),
        ),
        1 <= n <= 5 && text::trimmed(name@).len() > 0 ==> out == Step::Ask(
            Flow::Webauthn(
                WebauthnFlow::Recalling {
                    job: RegistrationJob { user_id, rp, slot: n as i32, name, device_response },
                },
            ),
            Action::Query(Query::TwoFactorOfType { user_id, atype: 1003 }),
        ),
{
}

/// A login goes on to its assertion exactly where keys are enabled and the user has one.
pub proof fn law_login_needs_an_enabled_key(
    user_id: String,
    rp: RelyingParty,
    assertion_json: String,
    state: LoginChallengeState,
    enabled: bool,
    registrations: Vec<WebauthnRegistration>,
    out: Step,
)
    requires
        handlers::gate::next(
            Flow::Webauthn(
                WebauthnFlow::Reading {
                    enabled,
                    goal: WebauthnGoal::Login { user_id, rp, assertion_json, state },
                },
            ),
            Event::Registrations(Some(registrations)),
            out,
        ),
    ensures
        enabled && registrations@.len() > 0 <==> out is Ask,
        out is Ask ==> out == Step::Ask(
            Flow::Webauthn(WebauthnFlow::LoginAsserting { user_id, rp, state, registrations }),
            Action::ReadAssertion { text: assertion_json },
        ),
        out is Done ==> out == Step::Done(
            Err(AppError::BadRequest(Refusal::WebauthnNotConfigured)),
        ),
{
}

// ---------------------------------------------------------------------------------------------
// Emailed codes
// ---------------------------------------------------------------------------------------------

/// A login code is judged at a reading of the clock. The code that was sent, white space around it
/// aside, is accepted up to ten minutes after it was sent, and refused as expired from then on; either
/// way it is withdrawn. Any other code is refused and counted, and the third one withdraws the code
/// that was sent. Without a code that was sent there is nothing to try.
pub proof fn law_login_code_is_judged_by_the_clock(
    token: String,
    data: EmailTokenData,
    tf: TwoFactor,
    out: Step,
) -> (now: i64)
    requires
        handlers::gate::next(
            Flow::Email(EmailFlow::CodeFinding { token, data }),
            Event::Row(Some(tf)),
            out,
        ),
    ensures
        outside::clock_reading(now),
        data.last_token is None ==> out == Step::Done(
            Err(AppError::BadRequest(Refusal::TokenMissing)),
        ),
        data.last_token matches Some(sent) ==> ({
            &&& out matches Step::Ask(
                Flow::Email(EmailFlow::CodeStoring { uuid, end }),
                Action::Encode(Payload::EmailToken(left)),
            )
            &&& uuid == tf.uuid
            &&& left.email == data.email
            &&& left.token_sent == data.token_sent
            &&& sent@ == text::trimmed(token@) && now <= data.token_sent + 600 ==> end == Ok::<
                Reply,
                AppError,
            >(Reply::Done) && left.last_token is None && left.attempts == 0
            &&& sent@ == text::trimmed(token@) && now > data.token_sent + 600 ==> end == Err::<
                Reply,
                AppError,
            >(AppError::BadRequest(Refusal::TokenExpired)) && left.last_token is None
                && left.attempts == 0
            &&& sent@ != text::trimmed(token@) ==> end == Err::<Reply, AppError>(
                AppError::BadRequest(Refusal::TokenInvalid),
            )
            &&& sent@ != text::trimmed(token@) && data.attempts < 2 ==> left.last_token
                == data.last_token && left.attempts == data.attempts + 1
            &&& sent@ != text::trimmed(token@) && data.attempts >= 2 ==> left.last_token is None
                && left.attempts == 0
        }),
{
    let now = choose|now: i64|
        outside::clock_reading(now) && #[trigger] handlers::email::tries(
            data,
            token@,
            now,
            tf.uuid,
            out,
        );
    assert(handlers::email::tries(data, token@, now, tf.uuid, out));
    now
}

/// A run that tries the login code that was sent, and is answered as it asks, ends well where the
/// clock was read within ten minutes of the time the code was sent, and is told that the code has
/// expired where it was read later. In both cases data without the code was stored in the user's
/// record before the answer.
pub proof fn law_code_that_was_sent_is_accepted_in_time(
    run: Run,
    user_id: String,
    token: String,
    data: EmailTokenData,
    sent: String,
    tf: TwoFactor,
    json: String,
    end: Result<Reply, AppError>,
) -> (now: i64)
    requires
        run.ends(Event::Done, end),
        run.flows[0] == Flow::Email(EmailFlow::CodeReading { user_id, token }),
        run.events == seq![Event::EmailToken(Some(data))].push(Event::Row(Some(tf))).push(
            Event::Text(json),
        ),
        data.last_token == Some(sent),
        sent@ == text::trimmed(token@),
    ensures
        outside::clock_reading(now),
        now <= data.token_sent + 600 ==> end == Ok::<Reply, AppError>(Reply::Done),
        now > data.token_sent + 600 ==> end == Err::<Reply, AppError>(
            AppError::BadRequest(Refusal::TokenExpired),
        ),
        run.actions[1] == Action::Query(Query::TwoFactorOfType { user_id, atype: 1 }),
        run.actions[2] matches Action::Encode(Payload::EmailToken(left)) && left.last_token is None,
        run.actions[3] == Action::Write(Write::SetData { uuid: tf.uuid, data: json }),
{
    lemma_answered(run, 0);
    lemma_answered(run, 1);
    lemma_answered(run, 2);
    let now = law_login_code_is_judged_by_the_clock(
        token,
        data,
        tf,
        Step::Ask(run.flows[2], run.actions[2]),
    );
    assert(handlers::gate::next(run.flows[3], Event::Done, Step::Done(end)));
    now
}

/// The step of a run that an answer led to.
proof fn lemma_answered(run: Run, i: int)
    requires
        run.valid(),
        0 <= i < run.events.len(),
    ensures
        handlers::gate::next(
            run.flows[i],
            run.events[i],
            Step::Ask(run.flows[i + 1], run.actions[i + 1]),
        ),
{
    let event = run.events[i];
}

/// A code that is issued for a login carries the time at which it is issued, whatever time the record
/// had before: the data to store is the user's address, the new code, the reading of the clock, and no
/// attempts.
pub proof fn law_login_code_carries_the_time_of_issue(
    uuid: String,
    data: EmailTokenData,
    token: String,
    out: Step,
)
    requires
        handlers::gate::next(
            Flow::Email(EmailFlow::LoginIssuing { uuid, data }),
            Event::Text(token),
            out,
        ),
    ensures
        out matches Step::Ask(flow, Action::Encode(Payload::EmailToken(stored))) && flow
            == Flow::Email(EmailFlow::LoginStoring { uuid, to: data.email, token }) && stored.email
            == data.email && stored.last_token == Some(token) && stored.attempts == 0
            && outside::clock_reading(stored.token_sent),
{
}

/// A code that is issued to prove an address carries the time at which it is issued: the data to
/// store is the address, the code, the reading of the clock, and no attempts.
pub proof fn law_proof_code_carries_the_time_of_issue(
    user_id: String,
    email: String,
    token: String,
    out: Step,
)
    requires
        handlers::gate::next(
            Flow::Email(EmailFlow::Issuing { user_id, email }),
            Event::Text(token),
            out,
        ),
    ensures
        out matches Step::Ask(flow, Action::Encode(Payload::EmailToken(stored))) && flow
            == Flow::Email(EmailFlow::Storing { user_id, email, token }) && stored.email == email
            && stored.last_token == Some(token) && stored.attempts == 0 && outside::clock_reading(
            stored.token_sent,
        ),
{
}

/// A login code that was issued at one reading of the clock and is tried, as it was sent, at another
/// that is no more than ten minutes later is accepted; and later it is not.
pub proof fn law_fresh_code_is_accepted(
    uuid: String,
    before: EmailTokenData,
    token: String,
    issued: Step,
    tf: TwoFactor,
    tried: Step,
) -> (times: (i64, i64))
    requires
        handlers::gate::next(
            Flow::Email(EmailFlow::LoginIssuing { uuid, data: before }),
            Event::Text(token),
            issued,
        ),
        text::trimmed(token@) == token@,
        issued matches Step::Ask(_, Action::Encode(Payload::EmailToken(stored)))
            && handlers::gate::next(
            Flow::Email(EmailFlow::CodeFinding { token, data: stored }),
            Event::Row(Some(tf)),
            tried,
        ),
    ensures
        outside::clock_reading(times.0),
        outside::clock_reading(times.1),
        issued matches Step::Ask(_, Action::Encode(Payload::EmailToken(stored))) && stored.token_sent
            == times.0,
        tried matches Step::Ask(Flow::Email(EmailFlow::CodeStoring { end, .. }), _) && (end is Ok
            <==> times.1 <= times.0 + 600),
{
    let stored = issued->Ask_1->Encode_0->EmailToken_0;
    let now = law_login_code_is_judged_by_the_clock(token, stored, tf, tried);
    (stored.token_sent, now)
}

/// A user who asks for a login code, and for whom every action succeeds, is mailed the code that was
/// made for them, of six digits, at the address in their record, after the data that issues it was
/// stored in that record.
pub proof fn law_login_code_is_stored_and_mailed(
    run: Run,
    tf: TwoFactor,
    data: EmailTokenData,
    token: String,
    json: String,
)
    requires
        run.valid(),
        run.flows[0] == Flow::Email(EmailFlow::LoginFinding),
        run.events == seq![Event::Row(Some(tf))].push(Event::EmailToken(Some(data))).push(
            Event::Text(token),
        ).push(Event::Text(json)).push(Event::Done),
    ensures
        run.actions[1] == (Action::ReadEmailToken { text: tf.data }),
        run.actions[2] == (Action::NewEmailToken { digits: 6 }),
        run.actions[3] matches Action::Encode(Payload::EmailToken(stored)) && stored.last_token
            == Some(token) && stored.email == data.email,
        run.actions[4] == Action::Write(Write::SetData { uuid: tf.uuid, data: json }),
        run.actions[5] == (Action::SendToken { to: data.email, token }),
        handlers::gate::next(run.flows[5], Event::Done, Step::Done(Ok(Reply::Done))),
{
    lemma_answered(run, 0);
    lemma_answered(run, 1);
    lemma_answered(run, 2);
    lemma_answered(run, 3);
    lemma_answered(run, 4);
}

/// A user who wants to prove an address has it trimmed and put in lower case; without an `@` it is
/// refused. Where every action succeeds, the user's records of Email 2FA and of earlier proofs go, a
/// new record of a proof is stored with the data that issues the code that was made, of six digits,
/// and the code is mailed to the address.
pub proof fn law_proof_code_is_stored_and_mailed(
    run: Run,
    user: User,
    user_id: String,
    email: String,
    token: String,
    json: String,
)
    requires
        run.valid(),
        run.flows[0] == (Flow::CheckingPassword {
            user,
            goal: Goal::SendEmail { user_id, email },
        }),
        run.events == seq![Event::Password(true)].push(Event::Done).push(Event::Text(token)).push(
            Event::Text(json),
        ).push(Event::Done),
    ensures
        outside::lowercase_of(text::trimmed(email@)).contains('@'),
        run.actions[1] == Action::Write(
            Write::DeleteTypes { user_id, first: 1, second: 1000 },
        ),
        run.actions[2] == (Action::NewEmailToken { digits: 6 }),
        run.actions[3] matches Action::Encode(Payload::EmailToken(stored)) && stored.last_token
            == Some(token) && stored.email@ == outside::lowercase_of(text::trimmed(email@)),
        run.actions[4] matches Action::Write(Write::Insert { row }) && row.user_uuid@ == user_id@
            && row.atype == 1000 && row.enabled && row.data@ == json@ && row.last_used == 0,
        run.actions[5] matches Action::SendToken { to, token: mailed } && mailed == token && to@
            == outside::lowercase_of(text::trimmed(email@)),
        handlers::gate::next(run.flows[5], Event::Done, Step::Done(Ok(Reply::Done))),
{
    lemma_answered(run, 0);
    lemma_answered(run, 1);
    lemma_answered(run, 2);
    lemma_answered(run, 3);
    lemma_answered(run, 4);
    let plain = run.flows[1]->Email_0->Clearing_email;
    let out = Step::Ask(run.flows[4], run.actions[4]);
    let made = choose|made: Result<TwoFactor, AppError>|
        TwoFactor::is_made(made, user_id@, TwoFactorType::EmailVerificationChallenge, json@)
            && #[trigger] handlers::email::stores_challenge(made, plain, token, out);
    assert(handlers::email::stores_challenge(made, plain, token, out));
}

/// An address without an `@` is refused, and every other one is taken.
pub proof fn law_addresses_have_an_at(user: User, user_id: String, email: String, out: Step)
    requires
        handlers::gate::next(
            Flow::CheckingPassword { user, goal: Goal::SendEmail { user_id, email } },
            Event::Password(true),
            out,
        ),
    ensures
        outside::lowercase_of(text::trimmed(email@)).contains('@') <==> out is Ask,
        out is Done ==> out == Step::Done(Err(AppError::BadRequest(Refusal::EmailInvalid))),
{
}

/// An address is proven exactly with the code that was sent, white space around it aside, and where it
/// is the address that the code was sent to, but for its case and for white space. The record then
/// becomes one of Email 2FA, without the code; the user has a recovery code; and they are shown the
/// address.
pub proof fn law_address_is_proven(
    user_id: String,
    uuid: String,
    email: String,
    token: String,
    data: EmailTokenData,
    out: Step,
)
    requires
        handlers::gate::next(
            Flow::Email(EmailFlow::ProvingData { user_id, uuid, email, token }),
            Event::EmailToken(Some(data)),
            out,
        ),
    ensures
        data.last_token is None ==> out == Step::Done(
            Err(AppError::BadRequest(Refusal::TokenMissing)),
        ),
        data.last_token matches Some(sent) ==> ({
            let right = sent@ == text::trimmed(token@);
            let same = outside::lowercase_of(text::trimmed(email@)) == outside::lowercase_of(
                text::trimmed(data.email@),
            );
            &&& !right ==> out == Step::Done(Err(AppError::BadRequest(Refusal::TokenInvalid)))
            &&& right && !same ==> out == Step::Done(
                Err(AppError::BadRequest(Refusal::EmailMismatch)),
            )
            &&& right && same ==> {
                &&& out matches Step::Ask(
                    Flow::Email(EmailFlow::Enabling { user_id: u, uuid: i, reply }),
                    Action::Encode(Payload::EmailToken(left)),
                )
                &&& u == user_id
                &&& i == uuid
                &&& left.last_token is None
                &&& left.attempts == 0
                &&& left.email == data.email
                &&& left.token_sent == data.token_sent
                &&& json::value_under(reply@, "enabled"@) == Some(JsonView::Bool(true))
                &&& json::value_under(reply@, "email"@) == Some(JsonView::Text(data.email@))
                &&& json::value_under(reply@, "object"@) == Some(JsonView::Text("twoFactorEmail"@))
            }
        }),
{
    lemma_email_document(Some(data.email), true);
}

/// What the document of the email provider holds under its names.
proof fn lemma_email_document(email: Option<String>, enabled: bool)
    ensures
        ({
            let document = handlers::replies::email_view(email, enabled);
            &&& json::value_under(document, "email"@) == Some(
                match email {
                    Some(e) => JsonView::Text(e@),
                    None => JsonView::Null,
                },
            )
            &&& json::value_under(document, "enabled"@) == Some(JsonView::Bool(enabled))
            &&& json::value_under(document, "object"@) == Some(JsonView::Text("twoFactorEmail"@))
        }),
{
    reveal_strlit("email");
    reveal_strlit("enabled");
    reveal_strlit("object");
    assert("email"@.len() == 5 && "enabled"@.len() == 7 && "object"@.len() == 6);
}

/// Once the data of a proven address is written, the record becomes one of Email 2FA with it, and the
/// user is seen to have a recovery code.
pub proof fn law_proven_address_is_enabled(
    user_id: String,
    uuid: String,
    reply: Json,
    data: String,
    out: Step,
)
    requires
        handlers::gate::next(
            Flow::Email(EmailFlow::Enabling { user_id, uuid, reply }),
            Event::Text(data),
            out,
        ),
    ensures
        out matches Step::Ask(Flow::Commit(Commit::Writing { writes, upkeep, end }), action)
            && writes@.len() == 0 && upkeep == (Upkeep::IssueRecovery { user_id }) && end == Ok::<
            Reply,
            AppError,
        >(Reply::Json(reply)) && action == Action::Write(
            Write::SetTypeAndData { uuid, atype: 1, data },
        ),
{
}

/// A user is shown the address of their Email 2FA where they have a record of it, and that it is not
/// enabled where they have none.
pub proof fn law_email_provider_is_shown(tf: TwoFactor, data: EmailTokenData, out: Step)
    ensures
        handlers::gate::next(Flow::Email(EmailFlow::Showing), Event::Row(None), out) ==> (
        out matches Step::Done(Ok(Reply::Json(document))) && json::value_under(
            document@,
            "enabled"@,
        ) == Some(JsonView::Bool(false)) && json::value_under(document@, "email"@) == Some(
            JsonView::Null,
        ) && json::value_under(document@, "object"@) == Some(JsonView::Text("twoFactorEmail"@))),
        handlers::gate::next(Flow::Email(EmailFlow::Showing), Event::Row(Some(tf)), out) ==> out
            == Step::Ask(
            Flow::Email(EmailFlow::ShowingData),
            Action::ReadEmailToken { text: tf.data },
        ),
        handlers::gate::next(
            Flow::Email(EmailFlow::ShowingData),
            Event::EmailToken(Some(data)),
            out,
        ) ==> (out matches Step::Done(Ok(Reply::Json(document))) && json::value_under(
            document@,
            "enabled"@,
        ) == Some(JsonView::Bool(true)) && json::value_under(document@, "email"@) == Some(
            JsonView::Text(data.email@),
        ) && json::value_under(document@, "object"@) == Some(JsonView::Text("twoFactorEmail"@))),
{
    lemma_email_document(None, false);
    lemma_email_document(Some(data.email), true);
}

/// Without the record that a request about emailed codes is about it is refused, and so it is where
/// the record's data cannot be read.
pub proof fn law_email_requests_need_their_record(
    user_id: String,
    uuid: String,
    email: String,
    token: String,
    data: EmailTokenData,
    out: Step,
)
    ensures
        handlers::gate::next(Flow::Email(EmailFlow::LoginFinding), Event::Row(None), out)
            || handlers::gate::next(
            Flow::Email(EmailFlow::CodeFinding { token, data }),
            Event::Row(None),
            out,
        ) ==> out == Step::Done(Err(AppError::BadRequest(Refusal::EmailNotEnabled))),
        handlers::gate::next(
            Flow::Email(EmailFlow::Proving { user_id, email, token }),
            Event::Row(None),
            out,
        ) ==> out == Step::Done(Err(AppError::BadRequest(Refusal::EmailChallengeMissing))),
        handlers::gate::next(Flow::Email(EmailFlow::ShowingData), Event::EmailToken(None), out)
            || handlers::gate::next(
            Flow::Email(EmailFlow::ProvingData { user_id, uuid, email, token }),
            Event::EmailToken(None),
            out,
        ) || handlers::gate::next(
            Flow::Email(EmailFlow::LoginReading { uuid }),
            Event::EmailToken(None),
            out,
        ) || handlers::gate::next(
            Flow::Email(EmailFlow::CodeReading { user_id, token }),
            Event::EmailToken(None),
            out,
        ) ==> out == Step::Done(Err(AppError::BadRequest(Refusal::EmailDataUnreadable))),
{
}

// ---------------------------------------------------------------------------------------------
// Time-based codes
// ---------------------------------------------------------------------------------------------

/// What the document of a TOTP key holds under its names.
proof fn lemma_authenticator_document(enabled: bool, key: Seq<char>)
    ensures
        shows_totp_key(handlers::replies::authenticator_view(enabled, key), enabled, key),
{
    reveal_strlit("enabled");
    reveal_strlit("key");
    reveal_strlit("object");
    assert("enabled"@.len() == 7 && "key"@.len() == 3 && "object"@.len() == 6);
}

/// Whether a document shows a TOTP key, and whether it is enabled.
pub open spec fn shows_totp_key(document: JsonView, enabled: bool, key: Seq<char>) -> bool {
    &&& json::value_under(document, "enabled"@) == Some(JsonView::Bool(enabled))
    &&& json::value_under(document, "key"@) == Some(JsonView::Text(key))
    &&& json::value_under(document, "object"@) == Some(JsonView::Text("twoFactorAuthenticator"@))
}

/// A user is shown the TOTP key in their record as enabled, or, without a record, a key that is made
/// for them, as not enabled.
pub proof fn law_totp_key_is_shown_or_made(tf: TwoFactor, key: String, out: Step)
    ensures
        handlers::gate::next(Flow::Totp(TotpFlow::Showing), Event::Row(Some(tf)), out) ==> (
        out matches Step::Done(Ok(Reply::Json(document))) && shows_totp_key(
            document@,
            true,
            tf.data@,
        )),
        handlers::gate::next(Flow::Totp(TotpFlow::Showing), Event::Row(None), out) ==> out
            == Step::Ask(Flow::Totp(TotpFlow::Making), Action::NewTotpSecret),
        handlers::gate::next(Flow::Totp(TotpFlow::Making), Event::Text(key), out) ==> (
        out matches Step::Done(Ok(Reply::Json(document))) && shows_totp_key(
            document@,
            false,
            key@,
        )),
{
    lemma_authenticator_document(true, tf.data@);
    lemma_authenticator_document(false, key@);
}

/// A TOTP key whose code is good is activated where every action succeeds: the key, in upper case, is
/// decoded to 20 bytes; the code is checked against it and against the time step last used, 0 where
/// there is no record; the user's record of a key and the remembered devices go; and a new record is
/// stored that holds the key and the time step of the code. The user then has a recovery code, and is
/// shown the key as enabled.
pub proof fn law_good_totp_code_activates_its_key(
    run: Run,
    user: User,
    user_id: String,
    key: String,
    token: String,
    bytes: Vec<u8>,
    existing: Option<TwoFactor>,
    step: i64,
    code: String,
    end: Result<Reply, AppError>,
)
    requires
        run.ends(Event::RecoveryCode(Some(Some(code))), end),
        run.flows[0] == (Flow::CheckingPassword {
            user,
            goal: Goal::ActivateAuthenticator { user_id, key, token },
        }),
        run.events == seq![Event::Password(true)].push(Event::Bytes(bytes)).push(
            Event::Row(existing),
        ).push(Event::Step(step)).push(Event::Done).push(Event::Done),
    ensures
        bytes@.len() == 20,
        run.actions[1] matches Action::DecodeBase32 { text: upper } && upper@
            == outside::uppercase_of(key@),
        run.actions[2] == Action::Query(Query::TwoFactorOfType { user_id, atype: 0 }),
        run.actions[3] matches Action::ValidateTotp { token: t, key: k, last_used } && t == token
            && k@ == outside::uppercase_of(key@) && last_used == (match existing {
            Some(tf) => tf.last_used,
            None => 0i64,
        }),
        run.actions[4] == Action::Write(Write::DeleteTypes { user_id, first: 0, second: 5 }),
        run.actions[5] matches Action::Write(Write::Insert { row }) && row.user_uuid@ == user_id@
            && row.atype == 0 && row.enabled && row.data@ == outside::uppercase_of(key@)
            && row.last_used == step,
        run.actions[6] == Action::Query(Query::RecoveryCode { user_id }),
        end matches Ok(Reply::Json(document)) && shows_totp_key(
            document@,
            true,
            outside::uppercase_of(key@),
        ),
{
    lemma_answered(run, 0);
    lemma_answered(run, 1);
    lemma_answered(run, 2);
    lemma_answered(run, 3);
    lemma_answered(run, 4);
    lemma_answered(run, 5);
    let upper = run.flows[1]->Totp_0->Decoding_key;
    let out = Step::Ask(run.flows[4], run.actions[4]);
    assert(handlers::totp::activated(user_id, upper, step, out));
    let (writes, ending) = handlers::totp::lemma_activated(user_id, upper, step, out);
    assert(handlers::gate::next(
        run.flows[6],
        Event::RecoveryCode(Some(Some(code))),
        Step::Done(end),
    ));
    lemma_authenticator_document(true, upper@);
}

/// A TOTP key that is not of 20 bytes is refused, and one that is is looked at further.
pub proof fn law_totp_keys_have_twenty_bytes(
    user_id: String,
    key: String,
    token: String,
    bytes: Vec<u8>,
    out: Step,
)
    requires
        handlers::gate::next(
            Flow::Totp(TotpFlow::Decoding { user_id, key, token }),
            Event::Bytes(bytes),
            out,
        ),
    ensures
        bytes@.len() == 20 <==> out is Ask,
        out is Done ==> out == Step::Done(Err(AppError::BadRequest(Refusal::KeyLength))),
{
}

/// A TOTP record is dropped exactly where there is one and it holds the key that the client named, in
/// upper case. Whoever has no provider left has no recovery code.
pub proof fn law_totp_record_is_dropped_for_its_key(
    user_id: String,
    key: String,
    type_: i32,
    existing: Option<TwoFactor>,
    out: Step,
)
    requires
        handlers::gate::next(
            Flow::Totp(TotpFlow::Disabling { user_id, key, type_ }),
            Event::Row(existing),
            out,
        ),
    ensures
        existing is None ==> out == Step::Done(
            Err(AppError::BadRequest(Refusal::TotpNotConfigured)),
        ),
        existing matches Some(tf) ==> {
            &&& tf.data@ != outside::uppercase_of(key@) ==> out == Step::Done(
                Err(AppError::BadRequest(Refusal::TotpKeyMismatch)),
            )
            &&& tf.data@ == outside::uppercase_of(key@) ==> {
                &&& out matches Step::Ask(
                    Flow::Commit(
                        Commit::Writing { writes, upkeep, end: Ok(Reply::Json(reply)) },
                    ),
                    action,
                )
                &&& writes@.len() == 0
                &&& upkeep == (Upkeep::ClearRecovery { user_id })
                &&& action == Action::Write(Write::DeleteRow { uuid: tf.uuid })
                &&& shows_disabled(reply@, type_)
            }
        },
{
    lemma_disabled_document(type_);
    if let Some(tf) = existing {
        if tf.data@ == outside::uppercase_of(key@) {
            let end = choose|end: Result<Reply, AppError>|
                handlers::flow::will_reply(end, handlers::replies::disabled_view(type_))
                    && #[trigger] handlers::commit::commits(
                    seq![Write::DeleteRow { uuid: tf.uuid }],
                    Upkeep::ClearRecovery { user_id },
                    end,
                    out,
                );
            assert(handlers::commit::commits(
                seq![Write::DeleteRow { uuid: tf.uuid }],
                Upkeep::ClearRecovery { user_id },
                end,
                out,
            ));
        }
    }
}

/// Whether a document says that a provider was switched off.
pub open spec fn shows_disabled(document: JsonView, type_: i32) -> bool {
    &&& json::value_under(document, "enabled"@) == Some(JsonView::Bool(false))
    &&& json::value_under(document, "type"@) == Some(JsonView::Int(type_ as int))
    &&& json::value_under(document, "object"@) == Some(JsonView::Text("twoFactorProvider"@))
}

/// What the document of a provider that was switched off holds under its names.
proof fn lemma_disabled_document(type_: i32)
    ensures
        shows_disabled(handlers::replies::disabled_view(type_), type_),
{
    reveal_strlit("enabled");
    reveal_strlit("type");
    reveal_strlit("object");
    assert("enabled"@.len() == 7 && "type"@.len() == 4 && "object"@.len() == 6);
}

// ---------------------------------------------------------------------------------------------
// Passwords, providers and recovery codes
// ---------------------------------------------------------------------------------------------

/// A signed-in user goes on exactly with the password of their account: it is checked for the account
/// that was found, and whoever has no account, gives no password or a wrong one is turned away.
pub proof fn law_password_decides(
    credentials: PasswordOrOtpData,
    goal: Goal,
    user: User,
    out: Step,
)
    ensures
        handlers::gate::next(Flow::FindingUser { credentials, goal }, Event::User(None), out)
            ==> out == Step::Done(Err(AppError::Unauthorized(Refusal::UserNotFound))),
        handlers::gate::next(Flow::FindingUser { credentials, goal }, Event::User(Some(user)), out)
            ==> match credentials.master_password_hash {
            None => out == Step::Done(Err(AppError::Unauthorized(Refusal::PasswordInvalid))),
            Some(password_hash) => out == Step::Ask(
                Flow::CheckingPassword { user, goal },
                Action::VerifyPassword { user_id: user.id, password_hash },
            ),
        },
        handlers::gate::next(Flow::CheckingPassword { user, goal }, Event::Password(false), out)
            ==> out == Step::Done(Err(AppError::Unauthorized(Refusal::PasswordInvalid))),
{
}

/// Someone who logs in is asked for exactly with the password of the account at their address, and
/// with the right one goes on to the Email 2FA of that account.
pub proof fn law_login_password_decides(
    password_hash: Option<String>,
    user: User,
    user_id: String,
    out: Step,
)
    ensures
        handlers::gate::next(Flow::FindingLogin { password_hash }, Event::User(Some(user)), out)
            ==> if password_hash is Some && (password_hash->0)@.len() > 0 {
            out == Step::Ask(
                Flow::CheckingLogin { user_id: user.id },
                Action::VerifyPassword { user_id: user.id, password_hash: password_hash->0 },
            )
        } else {
            out == Step::Done(Err(AppError::Unauthorized(Refusal::LoginIncorrect)))
        },
        handlers::gate::next(Flow::FindingLogin { password_hash }, Event::User(None), out) ==> out
            == Step::Done(Err(AppError::Unauthorized(Refusal::LoginIncorrect))),
        handlers::gate::next(Flow::CheckingLogin { user_id }, Event::Password(true), out) ==> out
            == Step::Ask(
            Flow::Email(EmailFlow::LoginFinding),
            Action::Query(Query::TwoFactorOfType { user_id, atype: 1 }),
        ),
{
}

/// With the right password a request looks for the record of its user that it is about.
pub proof fn law_requests_look_for_their_record(
    user: User,
    user_id: String,
    email: String,
    token: String,
    key: String,
    type_: i32,
    job: YubikeyJob,
    rp: RelyingParty,
    goal: Goal,
    out: Step,
)
    requires
        handlers::gate::next(
            Flow::CheckingPassword { user, goal },
            Event::Password(true),
            out,
        ),
    ensures
        goal == (Goal::GetAuthenticator { user_id }) ==> out == Step::Ask(
            Flow::Totp(TotpFlow::Showing),
            Action::Query(Query::TwoFactorOfType { user_id, atype: 0 }),
        ),
        goal == (Goal::DisableAuthenticator { user_id, key, type_ }) ==> out == Step::Ask(
            Flow::Totp(TotpFlow::Disabling { user_id, key, type_ }),
            Action::Query(Query::TwoFactorOfType { user_id, atype: type_ }),
        ),
        goal == (Goal::GetEmail { user_id }) ==> out == Step::Ask(
            Flow::Email(EmailFlow::Showing),
            Action::Query(Query::TwoFactorOfType { user_id, atype: 1 }),
        ),
        goal == (Goal::ActivateEmail { user_id, email, token }) ==> out == Step::Ask(
            Flow::Email(EmailFlow::Proving { user_id, email, token }),
            Action::Query(Query::TwoFactorOfType { user_id, atype: 1000 }),
        ),
        goal == (Goal::GetYubikey { user_id }) ==> out == Step::Ask(
            Flow::Yubikey(YubikeyFlow::Showing),
            Action::Query(Query::TwoFactorOfType { user_id, atype: 3 }),
        ),
        goal == (Goal::ActivateYubikey { job }) ==> out == Step::Ask(
            Flow::Yubikey(YubikeyFlow::Recalling { job }),
            Action::Query(Query::TwoFactorOfType { user_id: job.user_id, atype: 3 }),
        ),
        goal == (Goal::GetWebauthn { user_id }) ==> out == Step::Ask(
            Flow::Webauthn(WebauthnFlow::Loading { goal: WebauthnGoal::Show }),
            Action::Query(Query::TwoFactorOfType { user_id, atype: 7 }),
        ),
        goal == (Goal::GetWebauthnChallenge { user_id, rp }) ==> out == Step::Ask(
            Flow::Webauthn(
                WebauthnFlow::Loading { goal: WebauthnGoal::Challenge { user_id, rp, user } },
            ),
            Action::Query(Query::TwoFactorOfType { user_id, atype: 7 }),
        ),
{
}

/// With the right password the records of a type that a user has are dropped; whoever has no provider
/// left has no recovery code; and the user is told which type was switched off.
pub proof fn law_provider_is_switched_off(user: User, user_id: String, type_: i32, out: Step)
    requires
        handlers::gate::next(
            Flow::CheckingPassword { user, goal: Goal::Disable { user_id, type_ } },
            Event::Password(true),
            out,
        ),
    ensures
        out matches Step::Ask(
            Flow::Commit(Commit::Writing { writes, upkeep, end: Ok(Reply::Json(reply)) }),
            action,
        ) && writes@.len() == 0 && upkeep == (Upkeep::ClearRecovery { user_id }) && action
            == Action::Write(Write::DeleteType { user_id, atype: type_ }) && shows_disabled(
            reply@,
            type_,
        ),
{
    lemma_disabled_document(type_);
    let end = choose|end: Result<Reply, AppError>|
        handlers::flow::will_reply(end, handlers::replies::disabled_view(type_))
            && #[trigger] handlers::commit::commits(
            seq![Write::DeleteType { user_id, atype: type_ }],
            Upkeep::ClearRecovery { user_id },
            end,
            out,
        );
    assert(handlers::commit::commits(
        seq![Write::DeleteType { user_id, atype: type_ }],
        Upkeep::ClearRecovery { user_id },
        end,
        out,
    ));
}

/// With the right password a user is shown the recovery code of their account, or that it has none.
pub proof fn law_recovery_code_is_shown(user: User, out: Step)
    requires
        handlers::gate::next(
            Flow::CheckingPassword { user, goal: Goal::GetRecover },
            Event::Password(true),
            out,
        ),
    ensures
        out matches Step::Done(Ok(Reply::Json(document))) && json::value_under(document@, "code"@)
            == Some(
            match user.totp_recover {
                Some(code) => JsonView::Text(code@),
                None => JsonView::Null,
            },
        ) && json::value_under(document@, "object"@) == Some(JsonView::Text("twoFactorRecover"@)),
{
    reveal_strlit("code");
    reveal_strlit("object");
    assert("code"@.len() == 4 && "object"@.len() == 6);
}

/// After a request that switched a provider on, an account without a recovery code is given a new
/// one, and an account that has one keeps it; either way the request then ends as it was to.
pub proof fn law_recovery_code_is_issued_once(
    user_id: String,
    end: Result<Reply, AppError>,
    writes: Vec<Write>,
    code: String,
    out: Step,
)
    ensures
        writes@.len() == 0 && handlers::gate::next(
            Flow::Commit(
                Commit::Writing { writes, upkeep: Upkeep::IssueRecovery { user_id }, end },
            ),
            Event::Done,
            out,
        ) ==> out == Step::Ask(
            Flow::Commit(Commit::ReadingRecovery { user_id, end }),
            Action::Query(Query::RecoveryCode { user_id }),
        ),
        handlers::gate::next(
            Flow::Commit(Commit::ReadingRecovery { user_id, end }),
            Event::RecoveryCode(Some(Some(code))),
            out,
        ) ==> out == Step::Done(end),
        handlers::gate::next(
            Flow::Commit(Commit::ReadingRecovery { user_id, end }),
            Event::RecoveryCode(Some(None)),
            out,
        ) ==> out == Step::Ask(
            Flow::Commit(Commit::MakingRecovery { user_id, end }),
            Action::NewRecoveryCode,
        ),
        handlers::gate::next(
            Flow::Commit(Commit::MakingRecovery { user_id, end }),
            Event::Text(code),
            out,
        ) ==> out == Step::Ask(
            Flow::Commit(Commit::Finishing { end }),
            Action::Write(Write::SetRecovery { user_id, code }),
        ),
        handlers::gate::next(Flow::Commit(Commit::Finishing { end }), Event::Done, out) ==> out
            == Step::Done(end),
{
}

/// After a request that switched a provider off, the recovery code of the account is taken away where
/// the user has no provider left, and kept where they have one.
pub proof fn law_recovery_code_goes_with_the_last_provider(
    user_id: String,
    end: Result<Reply, AppError>,
    writes: Vec<Write>,
    left: Vec<TwoFactor>,
    out: Step,
)
    ensures
        writes@.len() == 0 && handlers::gate::next(
            Flow::Commit(
                Commit::Writing { writes, upkeep: Upkeep::ClearRecovery { user_id }, end },
            ),
            Event::Done,
            out,
        ) ==> out == Step::Ask(
            Flow::Commit(Commit::CountingProviders { user_id, end }),
            Action::Query(Query::Providers { user_id }),
        ),
        handlers::gate::next(
            Flow::Commit(Commit::CountingProviders { user_id, end }),
            Event::Rows(left),
            out,
        ) ==> if left@.len() > 0 {
            out == Step::Done(end)
        } else {
            out == Step::Ask(
                Flow::Commit(Commit::Finishing { end }),
                Action::Write(Write::ClearRecovery { user_id }),
            )
        },
{
}

/// A value that was written as JSON is stored, unless no random numbers could be drawn for a UUID, in a
/// new record of its user and type, in the place of
/// those they had, and then the request sees to what it was to: nothing of it is lost.
pub proof fn law_written_value_is_stored(
    user_id: String,
    atype: TwoFactorType,
    upkeep: Upkeep,
    end: Result<Reply, AppError>,
    data: String,
    out: Step,
)
    requires
        handlers::gate::next(
            Flow::Commit(Commit::Saving { user_id, atype, upkeep, end }),
            Event::Text(data),
            out,
        ),
    ensures
        (out == Step::Done(Err(AppError::Internal)) && outside::drawn(16, None)) || ({
            &&& out matches Step::Ask(
                Flow::Commit(Commit::Writing { writes, upkeep: u, end: e }),
                Action::Write(Write::DeleteType { user_id: owner, atype: t }),
            )
            &&& owner@ == user_id@
            &&& t == atype.code()
            &&& u == upkeep
            &&& e == end
            &&& writes@.len() == 1
            &&& writes@[0] matches Write::Insert { row } && row.user_uuid@ == user_id@ && row.atype
                == atype.code() && row.enabled && row.data@ == data@ && row.last_used == 0
                && outside::random_uuid_text(row.uuid@)
        }),
{
    let made = choose|made: Result<TwoFactor, AppError>|
        TwoFactor::is_made(made, user_id@, atype, data@)
            && #[trigger] handlers::commit::stores_made(made, upkeep, end, out);
    assert(handlers::commit::stores_made(made, upkeep, end, out));
}

/// Changes that are yet to be made are made one after the other, the first of them next; none is
/// left out.
pub proof fn law_next_change_is_made(
    writes: Vec<Write>,
    upkeep: Upkeep,
    end: Result<Reply, AppError>,
    out: Step,
)
    requires
        writes@.len() > 0,
        handlers::gate::next(
            Flow::Commit(Commit::Writing { writes, upkeep, end }),
            Event::Done,
            out,
        ),
    ensures
        out matches Step::Ask(
            Flow::Commit(Commit::Writing { writes: rest, upkeep: u, end: e }),
            action,
        ) && action == Action::Write(writes@[0]) && rest@ == writes@.skip(1) && u == upkeep && e
            == end,
{
    assert(writes@.drop_first() =~= writes@.skip(1));
}

/// A list of providers shows a user's enabled records and no others, each by its type.
pub proof fn law_providers_are_listed(rows: Vec<TwoFactor>, i: int, out: Step) -> (shown: Seq<
    JsonView,
>)
    requires
        handlers::gate::next(Flow::ListingProviders, Event::Rows(rows), out),
        0 <= i < rows@.len(),
    ensures
        out matches Step::Done(Ok(Reply::Json(document))) && json::value_under(
            document@,
            "object"@,
        ) == Some(JsonView::Text("list"@)) && json::value_under(document@, "continuationToken"@)
            == Some(JsonView::Null) && json::value_under(document@, "data"@) == Some(
            JsonView::Array(shown),
        ),
        shown.len() <= rows@.len(),
        rows@[i].enabled ==> exists|j: int|
            0 <= j < shown.len() && #[trigger] shows_provider(shown[j], rows@[i]),
        forall|j: int|
            0 <= j < shown.len() ==> shows_an_enabled_one(#[trigger] shown[j], rows@),
{
    let all = rows@;
    let enabled = handlers::replies::enabled_rows(all);
    let shown = handlers::replies::provider_views(enabled);
    lemma_list_document(all);
    lemma_enabled_count(all);
    if all[i].enabled {
        handlers::replies::lemma_enabled_rows(all, all[i]);
        assert(all.contains(all[i]));
        let j = choose|j: int| 0 <= j < enabled.len() && enabled[j] == all[i];
        lemma_provider_entry(enabled[j]);
        assert(shows_provider(shown[j], all[i]));
    }
    assert forall|j: int| 0 <= j < shown.len() implies shows_an_enabled_one(
        #[trigger] shown[j],
        all,
    ) by {
        handlers::replies::lemma_enabled_rows(all, enabled[j]);
        assert(enabled.contains(enabled[j]));
        let k = choose|k: int| 0 <= k < all.len() && all[k] == enabled[j];
        lemma_provider_entry(enabled[j]);
        assert(shows_provider(shown[j], all[k]));
    }
    shown
}

/// Where all the records of a user are enabled, all are listed, in the order in which they were found.
pub proof fn law_providers_are_listed_in_order(rows: Vec<TwoFactor>, i: int, out: Step)
    requires
        handlers::gate::next(Flow::ListingProviders, Event::Rows(rows), out),
        forall|k: int| 0 <= k < rows@.len() ==> (#[trigger] rows@[k]).enabled,
        0 <= i < rows@.len(),
    ensures
        out matches Step::Done(Ok(Reply::Json(document))) && (json::value_under(
            document@,
            "data"@,
        ) matches Some(JsonView::Array(shown)) && shown.len() == rows@.len() && shows_provider(
            shown[i],
            rows@[i],
        )),
{
    lemma_list_document(rows@);
    lemma_enabled_count(rows@);
    lemma_provider_entry(rows@[i]);
}

/// What the document that lists providers holds under its names.
proof fn lemma_list_document(rows: Seq<TwoFactor>)
    ensures
        ({
            let document = handlers::replies::provider_list_view(rows);
            &&& json::value_under(document, "data"@) == Some(
                JsonView::Array(
                    handlers::replies::provider_views(handlers::replies::enabled_rows(rows)),
                ),
            )
            &&& json::value_under(document, "object"@) == Some(JsonView::Text("list"@))
            &&& json::value_under(document, "continuationToken"@) == Some(JsonView::Null)
        }),
{
    reveal_strlit("data");
    reveal_strlit("object");
    reveal_strlit("continuationToken");
    assert("data"@.len() == 4 && "object"@.len() == 6 && "continuationToken"@.len() == 17);
}

/// No more records are enabled than there are, and where all are, all are.
proof fn lemma_enabled_count(rows: Seq<TwoFactor>)
    ensures
        handlers::replies::enabled_rows(rows).len() <= rows.len(),
        (forall|i: int| 0 <= i < rows.len() ==> (#[trigger] rows[i]).enabled)
            ==> handlers::replies::enabled_rows(rows) == rows,
    decreases rows.len(),
{
    if rows.len() > 0 {
        let head = rows.drop_last();
        lemma_enabled_count(head);
        assert(forall|i: int| 0 <= i < head.len() ==> #[trigger] head[i] == rows[i]);
        assert(rows =~= head.push(rows.last()));
        assert(rows[rows.len() - 1] == rows.last());
    }
}

/// Whether an entry of a list shows a record that is enabled.
pub open spec fn shows_an_enabled_one(entry: JsonView, rows: Seq<TwoFactor>) -> bool {
    exists|i: int| 0 <= i < rows.len() && rows[i].enabled && #[trigger] shows_provider(entry, rows[i])
}

/// Whether an entry of a list shows a record.
pub open spec fn shows_provider(entry: JsonView, row: TwoFactor) -> bool {
    &&& json::value_under(entry, "enabled"@) == Some(JsonView::Bool(row.enabled))
    &&& json::value_under(entry, "type"@) == Some(JsonView::Int(row.atype as int))
    &&& json::value_under(entry, "object"@) == Some(JsonView::Text("twoFactorProvider"@))
}

/// What the entry of a record holds under its names.
proof fn lemma_provider_entry(row: TwoFactor)
    ensures
        shows_provider(row.provider_view(), row),
{
    reveal_strlit("enabled");
    reveal_strlit("type");
    reveal_strlit("object");
    assert("enabled"@.len() == 7 && "type"@.len() == 4 && "object"@.len() == 6);
}

// ---------------------------------------------------------------------------------------------
// WebAuthn ceremonies
// ---------------------------------------------------------------------------------------------

/// The registration of a key recalls the challenge of its user, uses it up, and has the client data
/// of the answer read. A credential that is then accepted goes on, as it was attested, to the keys of
/// the user, under the slot and the name that they chose.
pub proof fn law_registration_answers_are_taken_up(
    run: Run,
    job: RegistrationJob,
    tf: TwoFactor,
    challenge: RegisterChallengeState,
    data: Option<ClientData>,
)
    requires
        run.valid(),
        run.flows[0] == Flow::Webauthn(WebauthnFlow::Recalling { job }),
        run.events == seq![Event::Row(Some(tf))].push(
            Event::RegisterChallenge(Some(challenge)),
        ).push(Event::Done).push(Event::ClientData(data)),
    ensures
        run.actions[1] == (Action::ReadRegisterChallenge { text: tf.data }),
        run.actions[2] == Action::Write(
            Write::DeleteType { user_id: job.user_id, atype: 1003 },
        ),
        run.actions[3] matches Action::ReadClientData { bytes } && Some(bytes@)
            == webauthn::b64url_bytes(job.device_response.response.client_data_json@),
        run.actions[4] == Action::Query(
            Query::TwoFactorOfType { user_id: job.user_id, atype: 7 },
        ),
        webauthn::registered_credential(
            job.rp,
            challenge,
            job.device_response,
            data,
        ) matches Ok(accepted) && (run.flows[4] matches Flow::Webauthn(
            WebauthnFlow::Loading {
                goal: WebauthnGoal::Register { user_id, slot, name, credential },
            },
        ) && user_id == job.user_id && slot == job.slot && name == job.name
            && webauthn::b64url_bytes(credential.cred_id@) == Some(accepted.cred_id)
            && webauthn::b64url_bytes(credential.public_key@) == Some(accepted.public_key)
            && credential.sign_count == accepted.sign_count && credential.backup_eligible
            == accepted.backup_eligible && credential.backup_state == accepted.backup_state),
{
    lemma_answered(run, 0);
    lemma_answered(run, 1);
    lemma_answered(run, 2);
    lemma_answered(run, 3);
    if webauthn::b64url_bytes(job.device_response.response.client_data_json@) is None {
        assert(webauthn::registered_credential(
            job.rp,
            challenge,
            job.device_response,
            None,
        ) is Err);
    }
}

/// A login with a key recalls the challenge of its user, uses it up, and then looks for the keys of
/// the user.
pub proof fn law_login_challenge_is_recalled(
    run: Run,
    user_id: String,
    rp: RelyingParty,
    assertion_json: String,
    tf: TwoFactor,
    state: LoginChallengeState,
)
    requires
        run.valid(),
        run.flows[0] == Flow::Webauthn(
            WebauthnFlow::LoginRecalling { user_id, rp, assertion_json },
        ),
        run.events == seq![Event::Row(Some(tf))].push(Event::LoginChallenge(Some(state))).push(
            Event::Done,
        ),
    ensures
        run.actions[1] == (Action::ReadLoginChallenge { text: tf.data }),
        run.actions[2] == Action::Write(Write::DeleteType { user_id, atype: 1004 }),
        run.actions[3] == Action::Query(Query::TwoFactorOfType { user_id, atype: 7 }),
        run.flows[3] == Flow::Webauthn(
            WebauthnFlow::Loading {
                goal: WebauthnGoal::Login { user_id, rp, assertion_json, state },
            },
        ),
{
    lemma_answered(run, 0);
    lemma_answered(run, 1);
    lemma_answered(run, 2);
}

/// A challenge that is not there, or cannot be read, is one that was lost.
pub proof fn law_lost_challenges_are_refused(
    job: RegistrationJob,
    user_id: String,
    rp: RelyingParty,
    assertion_json: String,
    out: Step,
)
    ensures
        handlers::gate::next(
            Flow::Webauthn(WebauthnFlow::Recalling { job }),
            Event::Row(None),
            out,
        ) || handlers::gate::next(
            Flow::Webauthn(WebauthnFlow::RecallingData { job }),
            Event::RegisterChallenge(None),
            out,
        ) ==> out == Step::Done(Err(AppError::BadRequest(Refusal::RegisterChallengeLost))),
        handlers::gate::next(
            Flow::Webauthn(WebauthnFlow::LoginRecalling { user_id, rp, assertion_json }),
            Event::Row(None),
            out,
        ) || handlers::gate::next(
            Flow::Webauthn(WebauthnFlow::LoginRecallingData { user_id, rp, assertion_json }),
            Event::LoginChallenge(None),
            out,
        ) ==> out == Step::Done(Err(AppError::BadRequest(Refusal::LoginChallengeLost))),
{
}

/// The record of a user's keys is read, with whether it is enabled; a record that cannot be read is
/// refused; and to drop a key there must be a record.
pub proof fn law_key_records_are_read(
    goal: WebauthnGoal,
    tf: TwoFactor,
    enabled: bool,
    user_id: String,
    slot: i32,
    out: Step,
)
    ensures
        handlers::gate::next(
            Flow::Webauthn(WebauthnFlow::Loading { goal }),
            Event::Row(Some(tf)),
            out,
        ) ==> out == Step::Ask(
            Flow::Webauthn(WebauthnFlow::Reading { enabled: tf.enabled, goal }),
            Action::ReadRegistrations { text: tf.data },
        ),
        handlers::gate::next(
            Flow::Webauthn(WebauthnFlow::Reading { enabled, goal }),
            Event::Registrations(None),
            out,
        ) || handlers::gate::next(
            Flow::Webauthn(WebauthnFlow::DeletingData { user_id, slot }),
            Event::Registrations(None),
            out,
        ) ==> out == Step::Done(Err(AppError::BadRequest(Refusal::WebauthnDataUnreadable))),
        handlers::gate::next(
            Flow::Webauthn(WebauthnFlow::Deleting { user_id, slot }),
            Event::Row(None),
            out,
        ) ==> out == Step::Done(Err(AppError::BadRequest(Refusal::WebauthnRowMissing))),
        handlers::gate::next(
            Flow::Webauthn(WebauthnFlow::Deleting { user_id, slot }),
            Event::Row(Some(tf)),
            out,
        ) ==> out == Step::Ask(
            Flow::Webauthn(WebauthnFlow::DeletingData { user_id, slot }),
            Action::ReadRegistrations { text: tf.data },
        ),
{
}

/// The client data of an assertion is read, and an assertion that passes its checks has its signature
/// verified; one that does not is refused for what is wrong with it.
pub proof fn law_checked_assertion_is_verified(
    user_id: String,
    rp: RelyingParty,
    state: LoginChallengeState,
    registrations: Vec<WebauthnRegistration>,
    assertion: PublicKeyCredentialAssertion,
    raw: Seq<u8>,
    data: Option<ClientData>,
    out: Step,
)
    requires
        webauthn::b64url_bytes(assertion.response.client_data_json@) == Some(raw),
    ensures
        handlers::gate::next(
            Flow::Webauthn(WebauthnFlow::LoginAsserting { user_id, rp, state, registrations }),
            Event::Assertion(Some(assertion)),
            out,
        ) ==> (out matches Step::Ask(flow, Action::ReadClientData { bytes }) && flow
            == Flow::Webauthn(
            WebauthnFlow::LoginChecking { user_id, rp, state, registrations, assertion },
        ) && bytes@ == raw),
        handlers::gate::next(
            Flow::Webauthn(
                WebauthnFlow::LoginChecking { user_id, rp, state, registrations, assertion },
            ),
            Event::ClientData(data),
            out,
        ) ==> match webauthn::login_check(rp, state, registrations@, Some(assertion), data) {
            Err(e) => out == Step::Done(Err(e)),
            Ok(view) => {
                &&& out matches Step::Ask(
                    Flow::Webauthn(
                        WebauthnFlow::LoginVerifying { user_id: u, registrations: r, check },
                    ),
                    Action::VerifySignature { public_key, signed, signature },
                )
                &&& u == user_id
                &&& r == registrations
                &&& check.index == view.index
                &&& check.sign_count == view.sign_count
                &&& check.flags == view.flags
                &&& public_key@ == view.public_key
                &&& signed@ == view.signed
                &&& signature@ == view.signature
            },
        },
{
}

/// A key is dropped from the slot whose number was given, and what is no number of a slot is refused.
pub proof fn law_dropped_slot_is_the_one_named(user: User, user_id: String, n: i64, out: Step)
    requires
        handlers::gate::next(
            Flow::CheckingPassword {
                user,
                goal: Goal::DeleteWebauthn { user_id, id: NumberOrString::Number(n) },
            },
            Event::Password(true),
            out,
        ),
    ensures
        -2147483648 <= n <= 2147483647 ==> out == Step::Ask(
            Flow::Webauthn(WebauthnFlow::Deleting { user_id, slot: n as i32 }),
            Action::Query(Query::TwoFactorOfType { user_id, atype: 7 }),
        ),
        !(-2147483648 <= n <= 2147483647) ==> out == Step::Done(
            Err(AppError::BadRequest(Refusal::KeyIdInvalid)),
        ),
{
}

// ---------------------------------------------------------------------------------------------
// YubiKeys
// ---------------------------------------------------------------------------------------------

/// The name of a field for a YubiKey, by its place, is told from those of the others, and from every
/// name that does not begin as it does.
proof fn lemma_yubikey_field(keys: Seq<String>, n: int)
    requires
        1 <= n,
    ensures
        json::last_value(handlers::replies::yubikey_fields(keys), "Key"@ + text::decimal_text(n))
            == (if n <= keys.len() {
            Some(JsonView::Text(keys[n - 1]@))
        } else {
            None
        }),
    decreases keys.len(),
{
    let name = "Key"@ + text::decimal_text(n);
    if keys.len() > 0 {
        let head = keys.drop_last();
        let last = keys.len() as int;
        lemma_yubikey_field(head, n);
        let other = "Key"@ + text::decimal_text(last);
        if name == other {
            assert(name.skip("Key"@.len() as int) =~= text::decimal_text(n));
            assert(other.skip("Key"@.len() as int) =~= text::decimal_text(last));
            text::law_decimal_reads_back(n);
            text::law_decimal_reads_back(last);
        }
        let fields = handlers::replies::yubikey_fields(head);
        let field = (other, JsonView::Text(keys.last()@));
        assert(handlers::replies::yubikey_fields(keys) == fields.push(field));
        json::lemma_last_value_push(fields, field, name);
    }
}

/// Whether a document shows YubiKeys: the n-th of them as `Key` and the number n, and none more.
pub open spec fn shows_yubikeys(document: JsonView, keys: Seq<String>, nfc: bool) -> bool {
    &&& forall|n: int|
        1 <= n <= keys.len() ==> json::value_under(
            document,
            "Key"@ + #[trigger] text::decimal_text(n),
        ) == Some(JsonView::Text(keys[n - 1]@))
    &&& json::value_under(document, "Key"@ + text::decimal_text(1 + keys.len() as int)) is None
    &&& json::value_under(document, "enabled"@) == Some(JsonView::Bool(true))
    &&& json::value_under(document, "nfc"@) == Some(JsonView::Bool(nfc))
    &&& json::value_under(document, "object"@) == Some(JsonView::Text("twoFactorU2f"@))
}

/// What the document of the YubiKey provider holds under its names.
proof fn lemma_yubikey_document(keys: Seq<String>, nfc: bool)
    ensures
        shows_yubikeys(handlers::replies::yubikeys_view(keys, true, nfc), keys, nfc),
{
    reveal_strlit("Key");
    reveal_strlit("enabled");
    reveal_strlit("nfc");
    reveal_strlit("object");
    assert("enabled"@.len() == 7 && "nfc"@.len() == 3 && "object"@.len() == 6);
    assert("enabled"@[0] == 'e' && "nfc"@[0] == 'n' && "object"@[0] == 'o' && "Key"@[0] == 'K');
    let document = handlers::replies::yubikeys_view(keys, true, nfc);
    let fields = handlers::replies::yubikey_fields(keys);
    assert forall|n: int| 1 <= n implies json::value_under(
        document,
        "Key"@ + #[trigger] text::decimal_text(n),
    ) == json::last_value(fields, "Key"@ + text::decimal_text(n)) by {
        let name = "Key"@ + text::decimal_text(n);
        assert(name[0] == 'K');
    }
    assert forall|n: int| 1 <= n <= keys.len() implies json::value_under(
        document,
        "Key"@ + #[trigger] text::decimal_text(n),
    ) == Some(JsonView::Text(keys[n - 1]@)) by {
        lemma_yubikey_field(keys, n);
    }
    lemma_yubikey_field(keys, 1 + keys.len() as int);
}

/// A user is shown the public ids of the YubiKeys in their record, and whether they are read by NFC;
/// without a record they are shown that none is enabled.
pub proof fn law_yubikeys_are_shown(tf: TwoFactor, meta: YubikeyMetadata, out: Step)
    ensures
        handlers::gate::next(Flow::Yubikey(YubikeyFlow::Showing), Event::Row(None), out) ==> (
        out matches Step::Done(Ok(Reply::Json(document))) && json::value_under(
            document@,
            "enabled"@,
        ) == Some(JsonView::Bool(false)) && json::value_under(document@, "object"@) == Some(
            JsonView::Text("twoFactorU2f"@),
        )),
        handlers::gate::next(Flow::Yubikey(YubikeyFlow::Showing), Event::Row(Some(tf)), out) ==> out
            == Step::Ask(
            Flow::Yubikey(YubikeyFlow::ShowingData),
            Action::ReadYubikey { text: tf.data },
        ),
        handlers::gate::next(
            Flow::Yubikey(YubikeyFlow::ShowingData),
            Event::Yubikey(Some(meta)),
            out,
        ) ==> (out matches Step::Done(Ok(Reply::Json(document))) && shows_yubikeys(
            document@,
            meta.keys@,
            meta.nfc,
        )),
        handlers::gate::next(Flow::Yubikey(YubikeyFlow::ShowingData), Event::Yubikey(None), out)
            ==> out == Step::Done(Err(AppError::BadRequest(Refusal::YubikeyDataUnreadable))),
{
    lemma_yubikey_document(meta.keys@, meta.nfc);
    reveal_strlit("enabled");
    reveal_strlit("object");
    assert("enabled"@.len() == 7 && "object"@.len() == 6);
}

/// Whether a request stores public ids as the YubiKeys of a user, who then has a recovery code, and
/// who is shown what is stored.
pub open spec fn stores_yubikeys(user_id: String, meta: YubikeyMetadata, flow: Flow) -> bool {
    &&& flow matches Flow::Commit(
        Commit::Saving { user_id: u, atype, upkeep, end: Ok(Reply::Json(reply)) },
    )
    &&& u == user_id
    &&& atype == TwoFactorType::YubiKey
    &&& upkeep == (Upkeep::IssueRecovery { user_id })
    &&& shows_yubikeys(reply@, meta.keys@, meta.nfc)
}

/// Going on with an activation stores public ids as those of its user.
proof fn lemma_proceeding_stores(job: YubikeyJob, flow: Flow, meta: YubikeyMetadata)
    requires
        handlers::yubikey::proceeds(
            job,
            Step::Ask(flow, Action::Encode(Payload::Yubikey(meta))),
        ),
    ensures
        stores_yubikeys(job.user_id, meta, flow),
{
    let out = Step::Ask(flow, Action::Encode(Payload::Yubikey(meta)));
    lemma_yubikey_document(meta.keys@, meta.nfc);
    match handlers::yubikey::scan(job.rest@, text::views(job.keys@), text::views(job.known@)) {
        Scan::End { keys } => {
            assert(handlers::yubikey::stores_keys(job.user_id, keys, job.nfc, out));
            let end = choose|end: Result<Reply, AppError>|
                handlers::flow::will_reply(
                    end,
                    handlers::replies::yubikeys_view(meta.keys@, true, job.nfc),
                ) && #[trigger] handlers::commit::saves(
                    job.user_id,
                    TwoFactorType::YubiKey,
                    Payload::Yubikey(meta),
                    Upkeep::IssueRecovery { user_id: job.user_id },
                    end,
                    out,
                );
            assert(handlers::commit::saves(
                job.user_id,
                TwoFactorType::YubiKey,
                Payload::Yubikey(meta),
                Upkeep::IssueRecovery { user_id: job.user_id },
                end,
                out,
            ));
        },
        Scan::BadLength => {},
        Scan::Verify { otp, rest, keys } => {
            let (after, o, step) = choose|after: YubikeyJob, o: String, step: OtpStep|
                handlers::yubikey::same_job(job, after) && after.rest@ == rest && text::views(
                    after.keys@,
                ) == keys && o@ == otp && yubico::starts_check(job.settings, otp, step)
                    && #[trigger] handlers::yubikey::asks_cloud(after, o, step, out);
            assert(handlers::yubikey::asks_cloud(after, o, step, out));
            if step is Ask {
                let request = choose|request: yubico::OtpRequest|
                    yubico::requests(job.settings, otp, request) && #[trigger] yubico::begins(
                        request,
                        step,
                    );
                assert(yubico::begins(request, step));
            }
        },
    }
}

/// Wherever an activation stores public ids once an answer was given, it stores them as the YubiKeys of
/// its user, who then has a recovery code, and who is shown what is stored.
pub proof fn law_stored_yubikeys_are_shown(
    job: YubikeyJob,
    otp: String,
    check: OtpCheck,
    event: Event,
    flow: Flow,
    meta: YubikeyMetadata,
)
    ensures
        handlers::gate::next(
            Flow::Yubikey(YubikeyFlow::Recalling { job }),
            event,
            Step::Ask(flow, Action::Encode(Payload::Yubikey(meta))),
        ) || handlers::gate::next(
            Flow::Yubikey(YubikeyFlow::RecallingData { job }),
            event,
            Step::Ask(flow, Action::Encode(Payload::Yubikey(meta))),
        ) || handlers::gate::next(
            Flow::Yubikey(YubikeyFlow::Verifying { job, otp, check }),
            event,
            Step::Ask(flow, Action::Encode(Payload::Yubikey(meta))),
        ) ==> stores_yubikeys(job.user_id, meta, flow),
{
    let out = Step::Ask(flow, Action::Encode(Payload::Yubikey(meta)));
    assert forall|after: YubikeyJob| #[trigger]
        handlers::yubikey::proceeds(after, out) implies stores_yubikeys(
        after.user_id,
        meta,
        flow,
    ) by {
        lemma_proceeding_stores(after, flow, meta);
    }
    if handlers::gate::next(
        Flow::Yubikey(YubikeyFlow::Verifying { job, otp, check }),
        event,
        out,
    ) {
        let step = choose|step: OtpStep|
            yubico::otp_next(check, event, step) && #[trigger] handlers::yubikey::verifies(
                job,
                otp,
                step,
                out,
            );
        assert(handlers::yubikey::verifies(job, otp, step, out));
    }
}

/// Blank texts at the start of what is looked at do not count.
proof fn lemma_blanks_do_not_count(
    rest: Seq<String>,
    keys: Seq<Seq<char>>,
    known: Seq<Seq<char>>,
    i: int,
)
    requires
        0 <= i <= rest.len(),
        forall|k: int| 0 <= k < i ==> text::trimmed((#[trigger] rest[k])@).len() == 0,
    ensures
        handlers::yubikey::scan(rest, keys, known) == handlers::yubikey::scan(
            rest.skip(i),
            keys,
            known,
        ),
    decreases i,
{
    if i == 0 {
        assert(rest.skip(0) =~= rest);
    } else {
        let tail = rest.drop_first();
        assert(text::trimmed(rest[0]@).len() == 0);
        assert forall|k: int| 0 <= k < i - 1 implies text::trimmed((#[trigger] tail[k])@).len()
            == 0 by {
            assert(tail[k] == rest[k + 1]);
        }
        lemma_blanks_do_not_count(tail, keys, known, i - 1);
        assert(tail.skip(i - 1) =~= rest.skip(i));
    }
}

/// Where everything that a client sent is blank, they are told that a one-time password is needed.
pub proof fn law_something_must_be_sent(job: YubikeyJob, meta: Option<YubikeyMetadata>, out: Step)
    requires
        job.keys@.len() == 0,
        forall|k: int| 0 <= k < job.rest@.len() ==> text::trimmed((#[trigger] job.rest@[k])@).len()
            == 0,
        handlers::gate::next(
            Flow::Yubikey(YubikeyFlow::RecallingData { job }),
            Event::Yubikey(meta),
            out,
        ) || handlers::gate::next(
            Flow::Yubikey(YubikeyFlow::Recalling { job }),
            Event::Row(None),
            out,
        ),
    ensures
        out == Step::Done(Err(AppError::BadRequest(Refusal::OtpRequired))),
{
    assert forall|after: YubikeyJob| #[trigger]
        handlers::yubikey::proceeds(after, out) && after.rest == job.rest && after.keys
            == job.keys implies out == Step::Done(
        Err(AppError::BadRequest(Refusal::OtpRequired)),
    ) by {
        let n = job.rest@.len() as int;
        lemma_blanks_do_not_count(
            job.rest@,
            text::views(job.keys@),
            text::views(after.known@),
            n,
        );
        assert(job.rest@.skip(n).len() == 0);
    }
}

/// The first text that is not blank decides how an activation goes on: a one-time password, of 44
/// bytes, is verified; the public id, of 12 bytes, of a key in the user's record is not; and
/// everything else is refused for its length.
pub proof fn law_first_text_decides(
    job: YubikeyJob,
    meta: YubikeyMetadata,
    i: int,
    out: Step,
)
    requires
        job.keys@.len() == 0,
        0 <= i < job.rest@.len(),
        forall|k: int| 0 <= k < i ==> text::trimmed((#[trigger] job.rest@[k])@).len() == 0,
        text::trimmed(job.rest@[i]@).len() > 0,
        handlers::gate::next(
            Flow::Yubikey(YubikeyFlow::RecallingData { job }),
            Event::Yubikey(Some(meta)),
            out,
        ),
    ensures
        ({
            let t = text::trimmed(job.rest@[i]@);
            let registered = exists|j: int|
                0 <= j < meta.keys@.len() && (#[trigger] meta.keys@[j])@ == outside::lowercase_of(
                    t,
                );
            &&& text::byte_len(t) == 44 ==> (out matches Step::Done(Err(_)) || (
            out matches Step::Ask(
                Flow::Yubikey(YubikeyFlow::Verifying { job: now, otp, .. }),
                _,
            ) && otp@ == t && now.rest@ == job.rest@.skip(i + 1) && now.keys@.len() == 0
                && now.known@ == meta.keys@ && now.user_id == job.user_id && now.settings
                == job.settings && now.nfc == job.nfc))
            &&& text::byte_len(t) != 44 && !(text::byte_len(t) == 12 && registered) ==> out
                == Step::Done(Err(AppError::BadRequest(Refusal::OtpLength)))
            &&& text::byte_len(t) == 12 && registered && (forall|k: int|
                i < k < job.rest@.len() ==> text::trimmed((#[trigger] job.rest@[k])@).len() == 0)
                ==> (out matches Step::Ask(_, Action::Encode(Payload::Yubikey(kept)))
                && kept.keys@.len() == 1 && kept.keys@[0]@ == outside::lowercase_of(t))
        }),
{
    let t = text::trimmed(job.rest@[i]@);
    let id = outside::lowercase_of(t);
    let known = meta.keys@;
    let after = choose|after: YubikeyJob|
        after.user_id == job.user_id && after.settings == job.settings && after.nfc == job.nfc
            && after.rest == job.rest && after.keys == job.keys && after.known@ == known
            && #[trigger] handlers::yubikey::proceeds(after, out);
    assert(handlers::yubikey::proceeds(after, out));
    let none = text::views(job.keys@);
    let views = text::views(known);
    lemma_blanks_do_not_count(job.rest@, none, views, i);
    let rest = job.rest@.skip(i);
    let left = rest.drop_first();
    assert(rest.first() == job.rest@[i]);
    assert(left =~= job.rest@.skip(i + 1));
    if views.contains(id) {
        let j = choose|j: int| 0 <= j < views.len() && views[j] == id;
        assert(known[j]@ == id);
    }
    if exists|j: int| 0 <= j < known.len() && (#[trigger] known[j])@ == id {
        let j = choose|j: int| 0 <= j < known.len() && (#[trigger] known[j])@ == id;
        assert(views[j] == id);
    }
    if text::byte_len(t) == 44 {
        let (now, o, step) = choose|now: YubikeyJob, o: String, step: OtpStep|
            handlers::yubikey::same_job(after, now) && now.rest@ == left && text::views(now.keys@)
                == none && o@ == t && yubico::starts_check(after.settings, t, step)
                && #[trigger] handlers::yubikey::asks_cloud(now, o, step, out);
        assert(handlers::yubikey::asks_cloud(now, o, step, out));
        assert(text::views(now.keys@).len() == now.keys@.len());
    }
    if text::byte_len(t) == 12 && views.contains(id) && (forall|k: int|
        i < k < job.rest@.len() ==> text::trimmed((#[trigger] job.rest@[k])@).len() == 0) {
        let one = none.push(id);
        assert forall|k: int| 0 <= k < left.len() implies text::trimmed((#[trigger] left[k])@).len()
            == 0 by {
            assert(left[k] == job.rest@[i + 1 + k]);
        }
        lemma_blanks_do_not_count(left, one, views, left.len() as int);
        assert(left.skip(left.len() as int).len() == 0);
        let kept = out->Ask_1->Encode_0->Yubikey_0;
        assert(handlers::yubikey::lists_keys(one, kept.keys@));
        lemma_one_key_is_listed(one, kept.keys@);
    }
}

/// One public id is listed as one.
proof fn lemma_one_key_is_listed(one: Seq<Seq<char>>, sorted: Seq<String>)
    requires
        one.len() == 1,
        handlers::yubikey::lists_keys(one, sorted),
    ensures
        sorted.len() == 1,
        sorted[0]@ == one[0],
{
    assert(text::views(sorted).contains(one[0]));
    assert(sorted.len() > 0);
    assert(one.contains(sorted[0]@));
    if sorted.len() > 1 {
        assert(one.contains(sorted[1]@));
        handlers::yubikey::law_stored_keys_differ(one, sorted, 0, 1);
    }
}

/// A one-time password for which YubiCloud vouches is accepted: where nothing else is left to look at,
/// its public id, the first twelve bytes in lower case, is stored with those accepted before it.
pub proof fn law_vouched_key_is_stored(
    job: YubikeyJob,
    otp: String,
    request: yubico::OtpRequest,
    answer: yubico::OtpAnswer,
    mac: Vec<u8>,
    id: Seq<char>,
    out: Step,
)
    requires
        answer.h@ == outside::base64_encoded(mac@),
        answer.otp@ == request.otp@,
        answer.nonce@ == request.nonce@,
        answer.status@ == "OK"@,
        text::leading_bytes(otp@, 12) == Some(id),
        forall|k: int| 0 <= k < job.rest@.len() ==> text::trimmed((#[trigger] job.rest@[k])@).len()
            == 0,
        handlers::gate::next(
            Flow::Yubikey(
                YubikeyFlow::Verifying {
                    job,
                    otp,
                    check: OtpCheck::SigningAnswer { request, answer },
                },
            ),
            Event::Bytes(mac),
            out,
        ),
    ensures
        out matches Step::Ask(_, Action::Encode(Payload::Yubikey(kept))) && (exists|j: int|
            0 <= j < kept.keys@.len() && (#[trigger] kept.keys@[j])@ == outside::lowercase_of(id))
            && forall|k: int|
            0 <= k < job.keys@.len() ==> exists|j: int|
                0 <= j < kept.keys@.len() && (#[trigger] kept.keys@[j])@ == (
                #[trigger] job.keys@[k])@,
{
    let check = OtpCheck::SigningAnswer { request, answer };
    let step = choose|step: OtpStep|
        yubico::otp_next(check, Event::Bytes(mac), step) && #[trigger] handlers::yubikey::verifies(
            job,
            otp,
            step,
            out,
        );
    assert(handlers::yubikey::verifies(job, otp, step, out));
    assert(step == OtpStep::Done(Ok(())));
    let before = text::views(job.keys@);
    let key = outside::lowercase_of(id);
    let after = choose|after: YubikeyJob|
        handlers::yubikey::same_job(job, after) && after.rest == job.rest && text::views(
            after.keys@,
        ) == before.push(key) && #[trigger] handlers::yubikey::proceeds(after, out);
    assert(handlers::yubikey::proceeds(after, out));
    let all = before.push(key);
    let n = job.rest@.len() as int;
    lemma_blanks_do_not_count(job.rest@, all, text::views(after.known@), n);
    assert(job.rest@.skip(n).len() == 0);
    let kept = out->Ask_1->Encode_0->Yubikey_0;
    assert(handlers::yubikey::lists_keys(all, kept.keys@));
    let stored = text::views(kept.keys@);
    assert(stored.contains(all[before.len() as int]));
    let j = choose|j: int| 0 <= j < stored.len() && stored[j] == key;
    assert(kept.keys@[j]@ == key);
    assert forall|k: int| 0 <= k < job.keys@.len() implies exists|j: int|
        0 <= j < kept.keys@.len() && (#[trigger] kept.keys@[j])@ == (#[trigger] job.keys@[k])@ by {
        assert(stored.contains(all[k]));
        let m = choose|m: int| 0 <= m < stored.len() && stored[m] == all[k];
        assert(kept.keys@[m]@ == job.keys@[k]@);
    }
}

/// The record of a user's keys is read before what they sent is looked at, and a record that is not
/// there or cannot be read holds none.
pub proof fn law_registered_keys_are_recalled(
    job: YubikeyJob,
    tf: TwoFactor,
    out: Step,
)
    ensures
        handlers::gate::next(
            Flow::Yubikey(YubikeyFlow::Recalling { job }),
            Event::Row(Some(tf)),
            out,
        ) ==> out == Step::Ask(
            Flow::Yubikey(YubikeyFlow::RecallingData { job }),
            Action::ReadYubikey { text: tf.data },
        ),
        handlers::gate::next(
            Flow::Yubikey(YubikeyFlow::Recalling { job }),
            Event::Row(None),
            out,
        ) <==> handlers::gate::next(
            Flow::Yubikey(YubikeyFlow::RecallingData { job }),
            Event::Yubikey(None),
            out,
        ),
{
}

// ---------------------------------------------------------------------------------------------
// Going on
// ---------------------------------------------------------------------------------------------

/// Whether an answer is one that a request goes on from, whatever it holds.
pub open spec fn is_gone_on_from(flow: Flow, event: Event) -> bool {
    match (flow, event) {
        (Flow::Email(EmailFlow::Showing), Event::Row(Some(_))) => true,
        (Flow::Email(EmailFlow::Clearing { .. }), Event::Done) => true,
        (Flow::Email(EmailFlow::Issuing { .. }), Event::Text(_)) => true,
        (Flow::Email(EmailFlow::Proving { .. }), Event::Row(Some(_))) => true,
        (Flow::Email(EmailFlow::Enabling { .. }), Event::Text(_)) => true,
        (Flow::Email(EmailFlow::LoginFinding), Event::Row(Some(_))) => true,
        (Flow::Email(EmailFlow::LoginReading { .. }), Event::EmailToken(Some(_))) => true,
        (Flow::Email(EmailFlow::LoginIssuing { .. }), Event::Text(_)) => true,
        (Flow::Email(EmailFlow::LoginStoring { .. }), Event::Text(_)) => true,
        (Flow::Email(EmailFlow::CodeReading { .. }), Event::EmailToken(Some(_))) => true,
        (Flow::Email(EmailFlow::CodeStoring { .. }), Event::Text(_)) => true,
        (Flow::Totp(TotpFlow::Showing), Event::Row(None)) => true,
        (Flow::Totp(TotpFlow::Finding { .. }), Event::Row(_)) => true,
        (Flow::Yubikey(YubikeyFlow::Showing), Event::Row(Some(_))) => true,
        (Flow::Yubikey(YubikeyFlow::Recalling { .. }), Event::Row(Some(_))) => true,
        (Flow::Webauthn(WebauthnFlow::Loading { .. }), Event::Row(Some(_))) => true,
        (Flow::Webauthn(WebauthnFlow::Recalling { .. }), Event::Row(Some(_))) => true,
        (
            Flow::Webauthn(WebauthnFlow::RecallingData { .. }),
            Event::RegisterChallenge(Some(_)),
        ) => true,
        (Flow::Webauthn(WebauthnFlow::LoginRecalling { .. }), Event::Row(Some(_))) => true,
        (
            Flow::Webauthn(WebauthnFlow::LoginRecallingData { .. }),
            Event::LoginChallenge(Some(_)),
        ) => true,
        (Flow::Webauthn(WebauthnFlow::LoginForgetting { .. }), Event::Done) => true,
        (Flow::Webauthn(WebauthnFlow::Deleting { .. }), Event::Row(Some(_))) => true,
        _ => false,
    }
}

/// A request that is answered as it asked goes on: where an answer decides nothing, it is not the end
/// of a request.
pub proof fn law_answered_requests_go_on(flow: Flow, event: Event, out: Step)
    requires
        handlers::gate::next(flow, event, out),
        is_gone_on_from(flow, event),
    ensures
        out is Ask,
{
}

/// An activation with the right password goes on to decode its key, whatever the key is; and once the
/// code was found to be good it goes on to its changes, unless no random numbers could be drawn for
/// the UUID of its record.
pub proof fn law_totp_activation_goes_on(
    user: User,
    user_id: String,
    key: String,
    token: String,
    step: i64,
    out: Step,
)
    ensures
        handlers::gate::next(
            Flow::CheckingPassword {
                user,
                goal: Goal::ActivateAuthenticator { user_id, key, token },
            },
            Event::Password(true),
            out,
        ) ==> out is Ask,
        handlers::gate::next(
            Flow::Totp(TotpFlow::Validating { user_id, key }),
            Event::Step(step),
            out,
        ) ==> out is Ask || (out == Step::Done(Err(AppError::Internal)) && outside::drawn(16, None)),
{
    if handlers::gate::next(
        Flow::Totp(TotpFlow::Validating { user_id, key }),
        Event::Step(step),
        out,
    ) {
        let made = choose|made: Result<TwoFactor, AppError>|
            TwoFactor::is_made(made, user_id@, TwoFactorType::Authenticator, key@)
                && #[trigger] handlers::totp::puts_key(made, user_id, key@, step, out);
        assert(handlers::totp::puts_key(made, user_id, key@, step, out));
        if let Ok(row) = made {
            let end = choose|end: Result<Reply, AppError>|
                handlers::flow::will_reply(
                    end,
                    handlers::replies::authenticator_view(true, key@),
                ) && #[trigger] handlers::commit::commits(
                    handlers::totp::replacing(user_id, row, step),
                    Upkeep::IssueRecovery { user_id },
                    end,
                    out,
                );
            assert(handlers::commit::commits(
                handlers::totp::replacing(user_id, row, step),
                Upkeep::IssueRecovery { user_id },
                end,
                out,
            ));
        }
    }
}

/// The data of a proof is stored, unless no random numbers could be drawn for the UUID of its record, in
/// a new record of a proof, and then the code is mailed to the address.
pub proof fn law_proof_is_stored(
    user_id: String,
    email: String,
    token: String,
    data: String,
    out: Step,
)
    requires
        handlers::gate::next(
            Flow::Email(EmailFlow::Storing { user_id, email, token }),
            Event::Text(data),
            out,
        ),
    ensures
        (out == Step::Done(Err(AppError::Internal)) && outside::drawn(16, None)) || ({
            &&& out matches Step::Ask(
                Flow::Commit(Commit::Writing { writes, upkeep, end }),
                Action::Write(Write::Insert { row }),
            )
            &&& writes@.len() == 0
            &&& upkeep == (Upkeep::Mail { to: email, token })
            &&& end == Ok::<Reply, AppError>(Reply::Done)
            &&& row.user_uuid@ == user_id@ && row.atype == 1000 && row.enabled && row.data@
                == data@ && row.last_used == 0 && outside::random_uuid_text(row.uuid@)
        }),
{
    let made = choose|made: Result<TwoFactor, AppError>|
        TwoFactor::is_made(made, user_id@, TwoFactorType::EmailVerificationChallenge, data@)
            && #[trigger] handlers::email::stores_challenge(made, email, token, out);
    assert(handlers::email::stores_challenge(made, email, token, out));
}

/// Once the changes of a request are made it mails what it was to mail, or ends as it was to end.
pub proof fn law_changes_are_followed_up(
    writes: Vec<Write>,
    to: String,
    token: String,
    end: Result<Reply, AppError>,
    out: Step,
)
    requires
        writes@.len() == 0,
    ensures
        handlers::gate::next(
            Flow::Commit(Commit::Writing { writes, upkeep: Upkeep::Mail { to, token }, end }),
            Event::Done,
            out,
        ) ==> out == Step::Ask(
            Flow::Commit(Commit::Finishing { end }),
            Action::SendToken { to, token },
        ),
        handlers::gate::next(
            Flow::Commit(Commit::Writing { writes, upkeep: Upkeep::Nothing, end }),
            Event::Done,
            out,
        ) ==> out == Step::Done(end),
{
}

/// The registration of a key, once its challenge is used up, goes on where its client data can be
/// read from base64url, and is refused for it where it cannot; and once its client data was read, it
/// goes on exactly where its credential is accepted, and is otherwise refused for what is wrong.
pub proof fn law_registration_goes_on(
    job: RegistrationJob,
    challenge: RegisterChallengeState,
    data: Option<ClientData>,
    out: Step,
)
    ensures
        handlers::gate::next(
            Flow::Webauthn(WebauthnFlow::Forgetting { job, challenge }),
            Event::Done,
            out,
        ) && webauthn::b64url_bytes(job.device_response.response.client_data_json@) is Some
            ==> out is Ask,
        handlers::gate::next(
            Flow::Webauthn(WebauthnFlow::Registering { job, challenge }),
            Event::ClientData(data),
            out,
        ) ==> match webauthn::registered_credential(
            job.rp,
            challenge,
            job.device_response,
            data,
        ) {
            Ok(_) => out is Ask,
            Err(e) => out == Step::Done(Err(e)),
        },
{
}

/// Whatever comes of a login code, what is left of its data is stored in the user's record before the
/// login ends so.
pub proof fn law_every_attempt_is_stored(
    uuid: String,
    end: Result<Reply, AppError>,
    data: String,
    out: Step,
)
    requires
        handlers::gate::next(
            Flow::Email(EmailFlow::CodeStoring { uuid, end }),
            Event::Text(data),
            out,
        ),
    ensures
        out matches Step::Ask(Flow::Commit(Commit::Writing { writes, upkeep, end: e }), action)
            && writes@.len() == 0 && upkeep == Upkeep::Nothing && e == end && action
            == Action::Write(Write::SetData { uuid, data }),
{
}

/// An account that is gone has no recovery code to see to.
pub proof fn law_recovery_needs_the_account(
    user_id: String,
    end: Result<Reply, AppError>,
    out: Step,
)
    requires
        handlers::gate::next(
            Flow::Commit(Commit::ReadingRecovery { user_id, end }),
            Event::RecoveryCode(None),
            out,
        ),
    ensures
        out == Step::Done(Err(AppError::Unauthorized(Refusal::UserNotFound))),
{
}

/// Whether an event is of the kind that a request waits for.
pub open spec fn waits_for(flow: Flow, event: Event) -> bool {
    match flow {
        Flow::ListingProviders => event is Rows,
        Flow::FindingUser { .. } | Flow::FindingLogin { .. } => event is User,
        Flow::CheckingPassword { .. } | Flow::CheckingLogin { .. } => event is Password,
        Flow::Totp(state) => match state {
            TotpFlow::Showing | TotpFlow::Finding { .. } | TotpFlow::Disabling {
                ..
            } => event is Row,
            TotpFlow::Making => event is Text,
            TotpFlow::Decoding { .. } => event is Bytes,
            TotpFlow::Validating { .. } => event is Step,
        },
        Flow::Email(state) => match state {
            EmailFlow::Showing | EmailFlow::Proving { .. } | EmailFlow::LoginFinding
            | EmailFlow::CodeFinding { .. } => event is Row,
            EmailFlow::ShowingData | EmailFlow::ProvingData { .. } | EmailFlow::LoginReading {
                ..
            } | EmailFlow::CodeReading { .. } => event is EmailToken,
            EmailFlow::Clearing { .. } => event is Done,
            _ => event is Text,
        },
        Flow::Yubikey(state) => match state {
            YubikeyFlow::Showing | YubikeyFlow::Recalling { .. } => event is Row,
            YubikeyFlow::ShowingData | YubikeyFlow::RecallingData { .. } => event is Yubikey,
            YubikeyFlow::Verifying { check, .. } => match check {
                OtpCheck::Fetching { .. } => event is Answer,
                _ => event is Bytes,
            },
        },
        Flow::Webauthn(state) => match state {
            WebauthnFlow::Loading { .. } | WebauthnFlow::Recalling { .. }
            | WebauthnFlow::LoginRecalling { .. } | WebauthnFlow::Deleting { .. } => event is Row,
            WebauthnFlow::Reading { .. } | WebauthnFlow::DeletingData {
                ..
            } => event is Registrations,
            WebauthnFlow::RecallingData { .. } => event is RegisterChallenge,
            WebauthnFlow::LoginRecallingData { .. } => event is LoginChallenge,
            WebauthnFlow::LoginAsserting { .. } => event is Assertion,
            WebauthnFlow::Registering { .. } | WebauthnFlow::LoginChecking {
                ..
            } => event is ClientData,
            WebauthnFlow::Forgetting { .. } | WebauthnFlow::LoginForgetting { .. }
            | WebauthnFlow::LoginVerifying { .. } => event is Done,
        },
        Flow::Commit(state) => match state {
            Commit::Saving { .. } | Commit::MakingRecovery { .. } => event is Text,
            Commit::Writing { .. } | Commit::Finishing { .. } => event is Done,
            Commit::ReadingRecovery { .. } => event is RecoveryCode,
            Commit::CountingProviders { .. } => event is Rows,
        },
    }
}

/// An answer to something that was not asked ends a request with an internal error.
pub proof fn law_answers_must_fit(flow: Flow, event: Event, out: Step)
    requires
        handlers::gate::next(flow, event, out),
        !waits_for(flow, event),
        !(event is Failed),
    ensures
        out == Step::Done(Err(AppError::Internal)),
{
    if let Flow::Yubikey(YubikeyFlow::Verifying { job, otp, check }) = flow {
        let step = choose|step: OtpStep|
            yubico::otp_next(check, event, step) && #[trigger] handlers::yubikey::verifies(
                job,
                otp,
                step,
                out,
            );
        assert(handlers::yubikey::verifies(job, otp, step, out));
    }
}

/// While a one-time password is verified, a request asks for what the verification asks for, and is
/// refused for what it is refused for.
pub proof fn law_verification_is_passed_on(
    job: YubikeyJob,
    otp: String,
    check: OtpCheck,
    event: Event,
    out: Step,
) -> (step: OtpStep)
    requires
        handlers::gate::next(
            Flow::Yubikey(YubikeyFlow::Verifying { job, otp, check }),
            event,
            out,
        ),
        !(event is Failed),
    ensures
        yubico::otp_next(check, event, step),
        step matches OtpStep::Ask(next, action) ==> out == Step::Ask(
            Flow::Yubikey(YubikeyFlow::Verifying { job, otp, check: next }),
            action,
        ),
        step matches OtpStep::Done(Err(e)) ==> out == Step::Done(Err(e)),
{
    let step = choose|step: OtpStep|
        yubico::otp_next(check, event, step) && #[trigger] handlers::yubikey::verifies(
            job,
            otp,
            step,
            out,
        );
    assert(handlers::yubikey::verifies(job, otp, step, out));
    step
}

/// An assertion that cannot be read is refused, and so is one, or the answer to a registration, whose
/// client data is no base64url.
pub proof fn law_unreadable_answers_are_refused(
    user_id: String,
    rp: RelyingParty,
    state: LoginChallengeState,
    registrations: Vec<WebauthnRegistration>,
    assertion: PublicKeyCredentialAssertion,
    job: RegistrationJob,
    challenge: RegisterChallengeState,
    out: Step,
)
    ensures
        handlers::gate::next(
            Flow::Webauthn(WebauthnFlow::LoginAsserting { user_id, rp, state, registrations }),
            Event::Assertion(None),
            out,
        ) ==> out == Step::Done(Err(AppError::BadRequest(Refusal::AssertionInvalid))),
        handlers::gate::next(
            Flow::Webauthn(WebauthnFlow::LoginAsserting { user_id, rp, state, registrations }),
            Event::Assertion(Some(assertion)),
            out,
        ) && webauthn::b64url_bytes(assertion.response.client_data_json@) is None ==> out
            == Step::Done(
            Err(
                webauthn::login_check(rp, state, registrations@, Some(assertion), None)->Err_0,
            ),
        ),
        handlers::gate::next(
            Flow::Webauthn(WebauthnFlow::Forgetting { job, challenge }),
            Event::Done,
            out,
        ) && webauthn::b64url_bytes(job.device_response.response.client_data_json@) is None
            && job.device_response.type_@ == "public-key"@ ==> out == Step::Done(
            Err(AppError::BadRequest(Refusal::Base64Invalid)),
        ),
{
}

/// Whether a request verifies a one-time password as YubiCloud's settings say, and keeps what is still to
/// be looked at and what was accepted.
pub open spec fn verifies_next(
    job: YubikeyJob,
    rest: Seq<String>,
    keys: Seq<Seq<char>>,
    known: Seq<String>,
    otp: Seq<char>,
    step: OtpStep,
    out: Step,
) -> bool {
    &&& yubico::starts_check(job.settings, otp, step)
    &&& step matches OtpStep::Done(Err(e)) ==> out == Step::Done(Err(e))
    &&& step matches OtpStep::Ask(check, action) ==> {
        &&& out matches Step::Ask(
            Flow::Yubikey(YubikeyFlow::Verifying { job: now, otp: o, check: c }),
            a,
        )
        &&& o@ == otp
        &&& c == check
        &&& a == action
        &&& now.rest@ == rest
        &&& text::views(now.keys@) == keys
        &&& now.known@ == known
        &&& now.user_id == job.user_id
        &&& now.settings == job.settings
        &&& now.nfc == job.nfc
    }
}

/// Going on with an activation verifies the next text that is not blank, where it has 44 bytes.
proof fn lemma_next_otp_is_verified(job: YubikeyJob, i: int, out: Step) -> (step: OtpStep)
    requires
        handlers::yubikey::proceeds(job, out),
        0 <= i < job.rest@.len(),
        forall|k: int| 0 <= k < i ==> text::trimmed((#[trigger] job.rest@[k])@).len() == 0,
        text::trimmed(job.rest@[i]@).len() > 0,
        text::byte_len(text::trimmed(job.rest@[i]@)) == 44,
    ensures
        verifies_next(
            job,
            job.rest@.skip(i + 1),
            text::views(job.keys@),
            job.known@,
            text::trimmed(job.rest@[i]@),
            step,
            out,
        ),
{
    let t = text::trimmed(job.rest@[i]@);
    let keys = text::views(job.keys@);
    let known = text::views(job.known@);
    lemma_blanks_do_not_count(job.rest@, keys, known, i);
    let rest = job.rest@.skip(i);
    assert(rest.first() == job.rest@[i]);
    assert(rest.drop_first() =~= job.rest@.skip(i + 1));
    let left = rest.drop_first();
    let (now, o, step) = choose|now: YubikeyJob, o: String, step: OtpStep|
        handlers::yubikey::same_job(job, now) && now.rest@ == left && text::views(now.keys@) == keys
            && o@ == t && yubico::starts_check(job.settings, t, step)
            && #[trigger] handlers::yubikey::asks_cloud(now, o, step, out);
    assert(handlers::yubikey::asks_cloud(now, o, step, out));
    step
}

/// Once the keys in a user's record are known, the first text that is not blank is verified where it is as
/// long as a one-time password.
pub proof fn law_sent_otp_is_verified(
    job: YubikeyJob,
    meta: YubikeyMetadata,
    i: int,
    out: Step,
) -> (step: OtpStep)
    requires
        0 <= i < job.rest@.len(),
        forall|k: int| 0 <= k < i ==> text::trimmed((#[trigger] job.rest@[k])@).len() == 0,
        text::trimmed(job.rest@[i]@).len() > 0,
        text::byte_len(text::trimmed(job.rest@[i]@)) == 44,
        handlers::gate::next(
            Flow::Yubikey(YubikeyFlow::RecallingData { job }),
            Event::Yubikey(Some(meta)),
            out,
        ),
    ensures
        verifies_next(
            job,
            job.rest@.skip(i + 1),
            text::views(job.keys@),
            meta.keys@,
            text::trimmed(job.rest@[i]@),
            step,
            out,
        ),
{
    let after = choose|after: YubikeyJob|
        after.user_id == job.user_id && after.settings == job.settings && after.nfc == job.nfc
            && after.rest == job.rest && after.keys == job.keys && after.known@ == meta.keys@
            && #[trigger] handlers::yubikey::proceeds(after, out);
    assert(handlers::yubikey::proceeds(after, out));
    lemma_next_otp_is_verified(after, i, out)
}

/// Once YubiCloud has vouched for a one-time password, its public id is kept with those accepted before
/// it, and the next text that is not blank is verified where it is as long as a one-time password.
pub proof fn law_next_otp_is_verified(
    job: YubikeyJob,
    otp: String,
    request: yubico::OtpRequest,
    answer: yubico::OtpAnswer,
    mac: Vec<u8>,
    id: Seq<char>,
    i: int,
    out: Step,
) -> (step: OtpStep)
    requires
        answer.h@ == outside::base64_encoded(mac@),
        answer.otp@ == request.otp@,
        answer.nonce@ == request.nonce@,
        answer.status@ == "OK"@,
        text::leading_bytes(otp@, 12) == Some(id),
        0 <= i < job.rest@.len(),
        forall|k: int| 0 <= k < i ==> text::trimmed((#[trigger] job.rest@[k])@).len() == 0,
        text::trimmed(job.rest@[i]@).len() > 0,
        text::byte_len(text::trimmed(job.rest@[i]@)) == 44,
        handlers::gate::next(
            Flow::Yubikey(
                YubikeyFlow::Verifying {
                    job,
                    otp,
                    check: OtpCheck::SigningAnswer { request, answer },
                },
            ),
            Event::Bytes(mac),
            out,
        ),
    ensures
        verifies_next(
            job,
            job.rest@.skip(i + 1),
            text::views(job.keys@).push(outside::lowercase_of(id)),
            job.known@,
            text::trimmed(job.rest@[i]@),
            step,
            out,
        ),
{
    let check = OtpCheck::SigningAnswer { request, answer };
    let judged = choose|judged: OtpStep|
        yubico::otp_next(check, Event::Bytes(mac), judged)
            && #[trigger] handlers::yubikey::verifies(job, otp, judged, out);
    assert(handlers::yubikey::verifies(job, otp, judged, out));
    assert(judged == OtpStep::Done(Ok(())));
    let after = choose|after: YubikeyJob|
        handlers::yubikey::same_job(job, after) && after.rest == job.rest && text::views(
            after.keys@,
        ) == text::views(job.keys@).push(outside::lowercase_of(id))
            && #[trigger] handlers::yubikey::proceeds(after, out);
    assert(handlers::yubikey::proceeds(after, out));
    lemma_next_otp_is_verified(after, i, out)
}

} // verus!
