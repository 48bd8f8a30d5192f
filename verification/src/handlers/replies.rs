//! The documents that two-factor requests are answered with.
use crate::json::{Fields, Json, JsonView};
use crate::models::twofactor::TwoFactor;
use crate::webauthn::WebauthnRegistration;
use crate::{json, store, text};
use vstd::prelude::*;

verus! {

broadcast use vstd::string::group_string_axioms;

/// The records that are enabled, in order.
pub open spec fn enabled_rows(rows: Seq<TwoFactor>) -> Seq<TwoFactor>
    decreases rows.len(),
{
    if rows.len() == 0 {
        rows
    } else if rows.last().enabled {
        enabled_rows(rows.drop_last()).push(rows.last())
    } else {
        enabled_rows(rows.drop_last())
    }
}

/// What a client is told of some records.
pub open spec fn provider_views(rows: Seq<TwoFactor>) -> Seq<JsonView> {
    Seq::new(rows.len(), |i: int| rows[i].provider_view())
}

/// The document that lists the enabled providers of a user.
pub open spec fn provider_list_view(rows: Seq<TwoFactor>) -> JsonView {
    JsonView::Object(
        json::no_fields()
            .push(("data"@, JsonView::Array(provider_views(enabled_rows(rows)))))
            .push(("object"@, JsonView::Text("list"@)))
            .push(("continuationToken"@, JsonView::Null)),
    )
}

/// The document that lists the enabled providers of a user.
pub fn provider_list(rows: &Vec<TwoFactor>) -> (r: Json)
    ensures
        r@ == provider_list_view(rows@),
{
    let mut data: Vec<Json> = Vec::new();
    let mut i: usize = 0;
    assert(json::items_view(data@) =~= provider_views(enabled_rows(rows@.take(0))));
    while i < rows.len()
        invariant
            i <= rows.len(),
            json::items_view(data@) == provider_views(enabled_rows(rows@.take(i as int))),
        decreases rows.len() - i,
    {
        let ghost before = data@;
        assert(rows@.take(i + 1).drop_last() =~= rows@.take(i as int));
        if rows[i].enabled {
            let item = rows[i].to_json_provider();
            data.push(item);
            assert(json::items_view(data@) =~= json::items_view(before).push(item@));
            assert(provider_views(enabled_rows(rows@.take(i + 1))) =~= provider_views(
                enabled_rows(rows@.take(i as int)),
            ).push(item@));
        }
        i = i + 1;
    }
    assert(rows@.take(i as int) =~= rows@);
    Fields::new().with("data", json::array(data)).with("object", json::text("list")).with(
        "continuationToken",
        Json::Null,
    ).object()
}

/// A record is among the enabled ones exactly where it is one of the records and is enabled.
pub proof fn lemma_enabled_rows(rows: Seq<TwoFactor>, row: TwoFactor)
    ensures
        enabled_rows(rows).contains(row) <==> rows.contains(row) && row.enabled,
    decreases rows.len(),
{
    if rows.len() > 0 {
        let head = rows.drop_last();
        let last = rows.last();
        lemma_enabled_rows(head, row);
        assert(rows =~= head.push(last));
        store::lemma_push_contains(head, last, row);
        store::lemma_push_contains(enabled_rows(head), last, row);
    }
}

/// The document of a TOTP key.
pub open spec fn authenticator_view(enabled: bool, key: Seq<char>) -> JsonView {
    JsonView::Object(
        json::no_fields()
            .push(("enabled"@, JsonView::Bool(enabled)))
            .push(("key"@, JsonView::Text(key)))
            .push(("object"@, JsonView::Text("twoFactorAuthenticator"@))),
    )
}

/// The document of a TOTP key.
pub fn authenticator(enabled: bool, key: &str) -> (r: Json)
    ensures
        r@ == authenticator_view(enabled, key@),
{
    Fields::new().with("enabled", Json::Bool(enabled)).with("key", json::text(key)).with(
        "object",
        json::text("twoFactorAuthenticator"),
    ).object()
}

/// The document of a provider that was switched off.
pub open spec fn disabled_view(type_: i32) -> JsonView {
    JsonView::Object(
        json::no_fields()
            .push(("enabled"@, JsonView::Bool(false)))
            .push(("type"@, JsonView::Int(type_ as int)))
            .push(("object"@, JsonView::Text("twoFactorProvider"@))),
    )
}

/// The document of a provider that was switched off.
pub fn disabled(type_: i32) -> (r: Json)
    ensures
        r@ == disabled_view(type_),
{
    Fields::new().with("enabled", Json::Bool(false)).with("type", Json::Int(type_ as i64)).with(
        "object",
        json::text("twoFactorProvider"),
    ).object()
}

/// A text, or null.
pub open spec fn optional_view(t: Option<String>) -> JsonView {
    match t {
        Some(s) => JsonView::Text(s@),
        None => JsonView::Null,
    }
}

/// A text, or null.
fn optional(t: &Option<String>) -> (r: Json)
    ensures
        r@ == optional_view(*t),
{
    match t {
        Some(s) => json::text(s.as_str()),
        None => Json::Null,
    }
}

/// The document of a recovery code.
pub open spec fn recover_view(code: Option<String>) -> JsonView {
    JsonView::Object(
        json::no_fields()
            .push(("code"@, optional_view(code)))
            .push(("object"@, JsonView::Text("twoFactorRecover"@))),
    )
}

/// The document of a recovery code.
pub fn recover(code: &Option<String>) -> (r: Json)
    ensures
        r@ == recover_view(*code),
{
    Fields::new().with("code", optional(code)).with(
        "object",
        json::text("twoFactorRecover"),
    ).object()
}

/// The document of the email provider.
pub open spec fn email_view(email: Option<String>, enabled: bool) -> JsonView {
    JsonView::Object(
        json::no_fields()
            .push(("email"@, optional_view(email)))
            .push(("enabled"@, JsonView::Bool(enabled)))
            .push(("object"@, JsonView::Text("twoFactorEmail"@))),
    )
}

/// The document of the email provider.
pub fn email(address: &Option<String>, enabled: bool) -> (r: Json)
    ensures
        r@ == email_view(*address, enabled),
{
    Fields::new().with("email", optional(address)).with("enabled", Json::Bool(enabled)).with(
        "object",
        json::text("twoFactorEmail"),
    ).object()
}

/// The fields for YubiKeys: `Key1`, `Key2` and so on.
pub open spec fn yubikey_fields(keys: Seq<String>) -> Seq<(Seq<char>, JsonView)>
    decreases keys.len(),
{
    if keys.len() == 0 {
        json::no_fields()
    } else {
        yubikey_fields(keys.drop_last()).push(
            ("Key"@ + text::decimal_text(keys.len() as int), JsonView::Text(keys.last()@)),
        )
    }
}

/// The document of the YubiKey provider.
pub open spec fn yubikeys_view(keys: Seq<String>, enabled: bool, nfc: bool) -> JsonView {
    JsonView::Object(
        yubikey_fields(keys)
            .push(("enabled"@, JsonView::Bool(enabled)))
            .push(("nfc"@, JsonView::Bool(nfc)))
            .push(("object"@, JsonView::Text("twoFactorU2f"@))),
    )
}

/// The document of the YubiKey provider. Its object name is a historical one.
pub fn jsonify_yubikeys(keys: &Vec<String>, enabled: bool, nfc: bool) -> (r: Json)
    ensures
        r@ == yubikeys_view(keys@, enabled, nfc),
{
    let mut fields = Fields::new();
    let mut i: usize = 0;
    while i < keys.len()
        invariant
            i <= keys.len(),
            fields@ == yubikey_fields(keys@.take(i as int)),
        decreases keys.len() - i,
    {
        assert(keys@.take(i + 1).drop_last() =~= keys@.take(i as int));
        let name = text::join("Key", text::write_decimal(i + 1).as_str());
        fields = fields.with(name.as_str(), json::text(keys[i].as_str()));
        i = i + 1;
    }
    assert(keys@.take(i as int) =~= keys@);
    fields.with("enabled", Json::Bool(enabled)).with("nfc", Json::Bool(nfc)).with(
        "object",
        json::text("twoFactorU2f"),
    ).object()
}

/// The document of a user who has no YubiKey.
pub open spec fn no_yubikey_view() -> JsonView {
    JsonView::Object(
        json::no_fields()
            .push(("enabled"@, JsonView::Bool(false)))
            .push(("object"@, JsonView::Text("twoFactorU2f"@))),
    )
}

/// The document of a user who has no YubiKey.
pub fn no_yubikey() -> (r: Json)
    ensures
        r@ == no_yubikey_view(),
{
    Fields::new().with("enabled", Json::Bool(false)).with(
        "object",
        json::text("twoFactorU2f"),
    ).object()
}

/// The document of the WebAuthn provider under an object name.
pub open spec fn webauthn_view(
    enabled: bool,
    registrations: Seq<WebauthnRegistration>,
    object: Seq<char>,
) -> JsonView {
    JsonView::Object(
        json::no_fields()
            .push(("enabled"@, JsonView::Bool(enabled)))
            .push(
                (
                    "keys"@,
                    JsonView::Array(
                        Seq::new(registrations.len(), |i: int| registrations[i].client_view()),
                    ),
                ),
            )
            .push(("object"@, JsonView::Text(object))),
    )
}

/// The document of the WebAuthn provider under an object name.
fn webauthn_document(
    enabled: bool,
    registrations: &Vec<WebauthnRegistration>,
    object: &str,
) -> (r: Json)
    ensures
        r@ == webauthn_view(enabled, registrations@, object@),
{
    let mut keys: Vec<Json> = Vec::new();
    let mut i: usize = 0;
    while i < registrations.len()
        invariant
            i <= registrations.len(),
            keys@.len() == i,
            forall|k: int| 0 <= k < i ==> (#[trigger] keys@[k])@ == registrations@[k].client_view(),
        decreases registrations.len() - i,
    {
        keys.push(registrations[i].to_client_json());
        i = i + 1;
    }
    assert(json::items_view(keys@) =~= Seq::new(
        registrations@.len(),
        |k: int| registrations@[k].client_view(),
    ));
    Fields::new().with("enabled", Json::Bool(enabled)).with("keys", json::array(keys)).with(
        "object",
        json::text(object),
    ).object()
}

/// The document of the WebAuthn provider.
pub fn jsonify_webauthn(enabled: bool, registrations: &Vec<WebauthnRegistration>) -> (r: Json)
    ensures
        r@ == webauthn_view(enabled, registrations@, "twoFactorWebAuthn"@),
{
    webauthn_document(enabled, registrations, "twoFactorWebAuthn")
}

/// The document of the WebAuthn provider after a key was added or removed. Its object name is a
/// historical one.
pub fn jsonify_webauthn_u2f(enabled: bool, registrations: &Vec<WebauthnRegistration>) -> (r: Json)
    ensures
        r@ == webauthn_view(enabled, registrations@, "twoFactorU2f"@),
{
    webauthn_document(enabled, registrations, "twoFactorU2f")
}

} // verus!
