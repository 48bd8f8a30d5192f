//! WebAuthn (FIDO2) relying-party rules for two-factor login.
//!
//! Credentials are ES256 keys on P-256, with attestation statements left unread. The JSON of client
//! data and assertions is read by the caller, and so is the verdict on a signature; everything the
//! ceremonies decide from them is here.
use crate::cbor::{CborDocument, CborItem, CborItemView, CborView};
use crate::error::{AppError, Refusal};
use crate::json::{Fields, Json, JsonView};
use crate::{cbor, json, outside, text};
use vstd::prelude::*;

verus! {

broadcast use vstd::string::group_string_axioms;

/// How many random bytes make a challenge.
pub const CHALLENGE_LEN: usize = 32;

/// Authenticator flag: the user was present.
pub const FLAG_UP: u8 = 0b0000_0001;

/// Authenticator flag: the user was verified. Two-factor login does not ask for it.
pub const FLAG_UV: u8 = 0b0000_0100;

/// Authenticator flag: the credential may be backed up.
pub const FLAG_BE: u8 = 0b0000_1000;

/// Authenticator flag: the credential is backed up.
pub const FLAG_BS: u8 = 0b0001_0000;

/// Authenticator flag: attested credential data follows.
pub const FLAG_AT: u8 = 0b0100_0000;

/// COSE key type: elliptic curve with two coordinates.
pub const COSE_KTY_EC2: i128 = 2;

/// COSE algorithm: ECDSA with SHA-256.
pub const COSE_ALG_ES256: i128 = -7;

/// COSE curve: P-256.
pub const COSE_CRV_P256: i128 = 1;

/// Relying party identity, derived from the base URL of the service.
#[derive(Debug)]
pub struct RelyingParty {
    pub rp_id: String,
    pub origin: String,
    pub name: String,
}

/// A credential as it is stored.
#[derive(Debug)]
pub struct StoredCredential {
    /// Credential id, in base64url without padding.
    pub cred_id: String,
    /// Uncompressed P-256 public key (a byte 4, then X, then Y), in base64url without padding.
    pub public_key: String,
    pub sign_count: u32,
    pub backup_eligible: bool,
    pub backup_state: bool,
}

/// One registered key.
#[derive(Debug)]
pub struct WebauthnRegistration {
    pub id: i32,
    pub name: String,
    pub migrated: bool,
    pub credential: StoredCredential,
}

/// What is remembered between the two halves of a registration.
#[derive(Debug)]
pub struct RegisterChallengeState {
    pub challenge: String,
    pub user_handle: String,
}

/// What is remembered between the two halves of a login.
#[derive(Debug)]
pub struct LoginChallengeState {
    pub challenge: String,
    pub allow_credential_ids: Vec<String>,
}

/// The client's answer to a registration challenge.
#[derive(Debug)]
pub struct RegisterPublicKeyCredential {
    pub id: String,
    pub raw_id: String,
    pub response: AuthenticatorAttestationResponse,
    pub type_: String,
}

/// The authenticator's part of a registration.
#[derive(Debug)]
pub struct AuthenticatorAttestationResponse {
    pub attestation_object: String,
    pub client_data_json: String,
}

/// The client's answer to a login challenge.
#[derive(Debug)]
pub struct PublicKeyCredentialAssertion {
    pub id: String,
    pub raw_id: String,
    pub response: AuthenticatorAssertionResponse,
    pub type_: String,
}

/// The authenticator's part of a login.
#[derive(Debug)]
pub struct AuthenticatorAssertionResponse {
    pub authenticator_data: String,
    pub client_data_json: String,
    pub signature: String,
    pub user_handle: Option<String>,
}

/// What is read of the client data of a ceremony.
#[derive(Debug)]
pub struct ClientData {
    pub type_: String,
    pub challenge: String,
    pub origin: String,
}

// ---------------------------------------------------------------------------------------------
// Base64url
// ---------------------------------------------------------------------------------------------

/// The bytes that a text stands for: base64url, without padding or else with it, once the white
/// space around it is dropped.
pub open spec fn b64url_bytes(s: Seq<char>) -> Option<Seq<u8>> {
    match outside::base64url_decoded(text::trimmed(s)) {
        Some(b) => Some(b),
        None => outside::base64url_padded_decoded(text::trimmed(s)),
    }
}

/// A text without white space is what trimming it gives.
pub proof fn lemma_trim_keeps(s: Seq<char>)
    requires
        forall|i: int| 0 <= i < s.len() ==> !text::white_space(#[trigger] s[i]),
    ensures
        text::trimmed(s) == s,
{
    if s.len() > 0 {
        assert(!text::white_space(s[0]));
        assert(!text::white_space(s[s.len() - 1]));
    }
}

/// Base64url without padding.
pub fn b64url_encode(data: &[u8]) -> (r: String)
    ensures
        r@ == outside::base64url_encoded(data@),
        b64url_bytes(r@) == Some(data@),
        outside::url_safe(r@),
{
    let r = outside::base64url_encode(data);
    proof {
        assert forall|i: int| 0 <= i < r@.len() implies !text::white_space(#[trigger] r@[i]) by {
            assert(outside::url_safe_char(r@[i]));
        }
        lemma_trim_keeps(r@);
    }
    r
}

/// Takes the first reading there is.
pub fn accept_decoding(plain: Option<Vec<u8>>, padded: Option<Vec<u8>>) -> (r: Result<
    Vec<u8>,
    AppError,
>)
    ensures
        r == match (plain, padded) {
            (Some(b), _) => Ok::<Vec<u8>, AppError>(b),
            (None, Some(b)) => Ok(b),
            (None, None) => Err(AppError::BadRequest(Refusal::Base64Invalid)),
        },
{
    match plain {
        Some(b) => Ok(b),
        None => match padded {
            Some(b) => Ok(b),
            None => Err(AppError::BadRequest(Refusal::Base64Invalid)),
        },
    }
}

/// Reads base64url, with or without padding.
pub fn b64url_decode(s: &str) -> (r: Result<Vec<u8>, AppError>)
    ensures
        match r {
            Ok(b) => b64url_bytes(s@) == Some(b@),
            Err(e) => b64url_bytes(s@) is None && e == AppError::BadRequest(Refusal::Base64Invalid),
        },
{
    let t = text::trim(s);
    match outside::base64url_decode(t.as_str()) {
        Some(b) => accept_decoding(Some(b), None),
        None => accept_decoding(None, outside::base64url_padded_decode(t.as_str())),
    }
}

// ---------------------------------------------------------------------------------------------
// Relying party
// ---------------------------------------------------------------------------------------------

impl RelyingParty {
    /// The relying party at a URL of which the domain and the origin were read, where it has a
    /// domain.
    pub fn from_url_parts(parts: Option<Option<(String, String)>>) -> (r: Result<Self, AppError>)
        ensures
            match outside::url_view(parts) {
                None => r == Err::<Self, AppError>(AppError::BadRequest(Refusal::BaseUrlInvalid)),
                Some(None) => r == Err::<Self, AppError>(
                    AppError::BadRequest(Refusal::BaseUrlNotDomain),
                ),
                Some(Some((domain, origin))) => {
                    &&& r matches Ok(rp)
                    &&& rp.rp_id@ == domain
                    &&& rp.name@ == domain
                    &&& rp.origin@ == origin
                },
            },
    {
        match parts {
            None => Err(AppError::BadRequest(Refusal::BaseUrlInvalid)),
            Some(None) => Err(AppError::BadRequest(Refusal::BaseUrlNotDomain)),
            Some(Some((domain, origin))) => Ok(
                RelyingParty { rp_id: domain.clone(), origin, name: domain },
            ),
        }
    }

    /// Whether this is the relying party of a service at `base_url`, or why there is none. Slashes at
    /// the end of the URL do not count, and the origin does not end in one.
    pub open spec fn is_at(base_url: Seq<char>, r: Result<Self, AppError>) -> bool {
        match outside::url_decoded(text::trimmed_end_of(base_url, '/')) {
            None => r == Err::<Self, AppError>(AppError::BadRequest(Refusal::BaseUrlInvalid)),
            Some(None) => r == Err::<Self, AppError>(
                AppError::BadRequest(Refusal::BaseUrlNotDomain),
            ),
            Some(Some((domain, origin))) => {
                &&& r matches Ok(rp)
                &&& rp.rp_id@ == domain
                &&& rp.name@ == domain
                &&& rp.origin@ == origin
                &&& origin.len() > 0 && origin.last() != '/'
            },
        }
    }

    /// The relying party of a service at `base_url`, whose slashes at the end do not count.
    pub fn from_base_url(base_url: &str) -> (r: Result<Self, AppError>)
        ensures
            Self::is_at(base_url@, r),
    {
        let base = text::trim_end_of(base_url, '/');
        Self::from_url_parts(outside::url_parse(base.as_str()))
    }
}

/// A slash after the base URL changes nothing: with it and without it there is the same relying
/// party, or none for the same reason. A relying party goes by its id, and its origin does not end in
/// a slash.
pub proof fn law_slash_after_base_changes_nothing(
    base_url: Seq<char>,
    plain: Result<RelyingParty, AppError>,
    slashed: Result<RelyingParty, AppError>,
)
    requires
        RelyingParty::is_at(base_url, plain),
        RelyingParty::is_at(base_url.push('/'), slashed),
    ensures
        match (plain, slashed) {
            (Ok(a), Ok(b)) => {
                &&& a.rp_id@ == b.rp_id@
                &&& a.origin@ == b.origin@
                &&& a.name@ == b.name@
                &&& a.name@ == a.rp_id@
                &&& a.origin@.len() > 0 && a.origin@.last() != '/'
            },
            (Err(a), Err(b)) => a == b,
            _ => false,
        },
{
    assert(base_url.push('/').drop_last() =~= base_url);
}

/// The relying party of a service is the domain of its base URL, with the origin of that URL; a base that
/// is no URL, or has no domain, has none.
pub proof fn law_party_is_that_of_the_base_url(
    base_url: Seq<char>,
    r: Result<RelyingParty, AppError>,
)
    requires
        RelyingParty::is_at(base_url, r),
        base_url.len() == 0 || base_url.last() != '/',
    ensures
        match outside::url_decoded(base_url) {
            None => r == Err::<RelyingParty, AppError>(
                AppError::BadRequest(Refusal::BaseUrlInvalid),
            ),
            Some(None) => r == Err::<RelyingParty, AppError>(
                AppError::BadRequest(Refusal::BaseUrlNotDomain),
            ),
            Some(Some((domain, origin))) => r matches Ok(rp) && rp.rp_id@ == domain && rp.origin@
                == origin && rp.name@ == domain,
        },
{
}

/// The digest of a relying party id.
pub open spec fn rp_hash(rp_id: Seq<char>) -> Seq<u8> {
    outside::sha256_of(vstd::utf8::encode_utf8(rp_id))
}

/// The SHA-256 digest of a relying party id.
pub fn rp_id_hash(rp_id: &str) -> (r: Vec<u8>)
    ensures
        r@ == rp_hash(rp_id@),
        r@.len() == 32,
{
    outside::sha256(rp_id.as_bytes())
}

// ---------------------------------------------------------------------------------------------
// Challenges and client data
// ---------------------------------------------------------------------------------------------

/// A fresh challenge.
pub fn random_challenge() -> (r: Result<Vec<u8>, AppError>)
    ensures
        match r {
            Ok(b) => b@.len() == CHALLENGE_LEN && outside::drawn(CHALLENGE_LEN, Some(b@)),
            Err(e) => e == AppError::Internal && outside::drawn(CHALLENGE_LEN, None),
        },
{
    match outside::random_bytes(CHALLENGE_LEN) {
        Some(b) => Ok(b),
        None => Err(AppError::Internal),
    }
}

/// Whether two texts are base64url of the same bytes.
pub open spec fn same_challenge(expected: Seq<char>, got: Seq<char>) -> bool {
    b64url_bytes(expected) is Some && b64url_bytes(expected) == b64url_bytes(got)
}

/// Whether both readings are there and hold the same bytes.
pub fn same_decoding(expected: Option<Vec<u8>>, got: Option<Vec<u8>>) -> (r: bool)
    ensures
        r == (expected is Some && outside::bytes_view(expected) == outside::bytes_view(got)),
{
    match (expected, got) {
        (Some(e), Some(g)) => e.len() == g.len() && constant_time_eq::constant_time_eq(
            e.as_slice(),
            g.as_slice(),
        ),
        _ => false,
    }
}

/// Whether the client answered the challenge it was given.
pub fn challenges_equal(expected_b64: &str, client_challenge_b64: &str) -> (r: bool)
    ensures
        r == same_challenge(expected_b64@, client_challenge_b64@),
{
    same_decoding(b64url_decode(expected_b64).ok(), b64url_decode(client_challenge_b64).ok())
}

/// The raw client data of a ceremony, for which the caller reads the JSON.
pub fn client_data_bytes(client_data_b64: &str) -> (r: Option<Vec<u8>>)
    ensures
        outside::bytes_view(r) == b64url_bytes(client_data_b64@),
{
    b64url_decode(client_data_b64).ok()
}

/// The client data of a ceremony and the raw bytes it was read from.
///
/// `reading` is what the caller read of those bytes as JSON, if it could.
pub fn parse_client_data(client_data_b64: &str, reading: Option<ClientData>) -> (r: Result<
    (ClientData, Vec<u8>),
    AppError,
>)
    ensures
        match (b64url_bytes(client_data_b64@), reading) {
            (None, _) => r == Err::<(ClientData, Vec<u8>), AppError>(
                AppError::BadRequest(Refusal::Base64Invalid),
            ),
            (Some(_), None) => r == Err::<(ClientData, Vec<u8>), AppError>(
                AppError::BadRequest(Refusal::ClientDataInvalid),
            ),
            (Some(raw), Some(data)) => r matches Ok(p) && p.0 == data && p.1@ == raw,
        },
{
    let raw = match b64url_decode(client_data_b64) {
        Ok(raw) => raw,
        Err(e) => return Err(e),
    };
    match reading {
        Some(data) => Ok((data, raw)),
        None => Err(AppError::BadRequest(Refusal::ClientDataInvalid)),
    }
}

/// What is wrong with the client data of a ceremony, if anything is.
pub open spec fn client_data_fault(
    data: ClientData,
    expected_type: Seq<char>,
    challenge_answered: bool,
    expected_origin: String,
) -> Option<Refusal> {
    if data.type_@ != expected_type {
        Some(Refusal::ClientDataType)
    } else if !challenge_answered {
        Some(Refusal::ChallengeMismatch)
    } else if data.origin@ != expected_origin@ {
        Some(Refusal::OriginMismatch { got: data.origin, expected: expected_origin })
    } else {
        None
    }
}

/// The result of a check that may find a fault.
pub open spec fn checked(fault: Option<Refusal>) -> Result<(), AppError> {
    match fault {
        Some(why) => Err(AppError::BadRequest(why)),
        None => Ok(()),
    }
}

/// Checks client data once it is known whether the challenge was answered.
pub fn check_client_data(
    data: &ClientData,
    expected_type: &str,
    challenge_answered: bool,
    expected_origin: &String,
) -> (r: Result<(), AppError>)
    ensures
        r == checked(
            client_data_fault(*data, expected_type@, challenge_answered, *expected_origin),
        ),
{
    if !text::same_text(data.type_.as_str(), expected_type) {
        return Err(AppError::BadRequest(Refusal::ClientDataType));
    }
    if !challenge_answered {
        return Err(AppError::BadRequest(Refusal::ChallengeMismatch));
    }
    if data.origin != *expected_origin {
        return Err(
            AppError::BadRequest(
                Refusal::OriginMismatch {
                    got: data.origin.clone(),
                    expected: expected_origin.clone(),
                },
            ),
        );
    }
    Ok(())
}

/// Checks client data against the ceremony: its type, the challenge and the origin, in this order.
pub fn verify_client_data(
    data: &ClientData,
    expected_type: &str,
    expected_challenge_b64: &str,
    expected_origin: &String,
) -> (r: Result<(), AppError>)
    ensures
        r == checked(
            client_data_fault(
                *data,
                expected_type@,
                same_challenge(expected_challenge_b64@, data.challenge@),
                *expected_origin,
            ),
        ),
{
    let answered = challenges_equal(expected_challenge_b64, data.challenge.as_str());
    check_client_data(data, expected_type, answered, expected_origin)
}

// ---------------------------------------------------------------------------------------------
// COSE public keys
// ---------------------------------------------------------------------------------------------

/// The bytes of a CBOR item.
pub open spec fn item_bytes(item: CborItemView) -> Result<Seq<u8>, AppError> {
    match item {
        CborItemView::Bytes(b) => Ok(b),
        _ => Err(AppError::BadRequest(Refusal::CborNotBytes)),
    }
}

/// The integer of a CBOR item.
pub open spec fn item_int(item: CborItemView) -> Result<int, AppError> {
    match item {
        CborItemView::Integer(i) => Ok(i),
        _ => Err(AppError::BadRequest(Refusal::CborNotInteger)),
    }
}

/// The integer that a COSE key must have under `label`.
pub open spec fn cose_int(
    entries: Seq<(CborItemView, CborItemView)>,
    label: int,
    missing: Refusal,
) -> Result<int, AppError> {
    match cbor::entry_under(entries, CborItemView::Integer(label)) {
        None => Err(AppError::BadRequest(missing)),
        Some(item) => item_int(item),
    }
}

/// The bytes that a COSE key must have under `label`.
pub open spec fn cose_bytes(
    entries: Seq<(CborItemView, CborItemView)>,
    label: int,
    missing: Refusal,
) -> Result<Seq<u8>, AppError> {
    match cbor::entry_under(entries, CborItemView::Integer(label)) {
        None => Err(AppError::BadRequest(missing)),
        Some(item) => item_bytes(item),
    }
}

/// Whether the algorithm of a COSE key, which it need not name, is ES256.
pub open spec fn cose_alg(entries: Seq<(CborItemView, CborItemView)>) -> Result<(), AppError> {
    match cbor::entry_under(entries, CborItemView::Integer(3)) {
        None => Ok(()),
        Some(item) => match item_int(item) {
            Err(e) => Err(e),
            Ok(alg) => if alg == COSE_ALG_ES256 {
                Ok(())
            } else {
                Err(AppError::BadRequest(Refusal::CoseAlgUnsupported))
            },
        },
    }
}

/// The uncompressed point with these coordinates.
pub open spec fn uncompressed_point(x: Seq<u8>, y: Seq<u8>) -> Seq<u8> {
    seq![4u8] + x + y
}

/// The coordinates of a COSE key on P-256, as an uncompressed point.
pub open spec fn cose_point(entries: Seq<(CborItemView, CborItemView)>) -> Result<
    Seq<u8>,
    AppError,
> {
    match cose_bytes(entries, -2, Refusal::CoseXMissing) {
        Err(e) => Err(e),
        Ok(x) => match cose_bytes(entries, -3, Refusal::CoseYMissing) {
            Err(e) => Err(e),
            Ok(y) => if x.len() != 32 || y.len() != 32 {
                Err(AppError::BadRequest(Refusal::PublicKeySize))
            } else {
                Ok(uncompressed_point(x, y))
            },
        },
    }
}

/// The public key that a COSE key with these entries holds.
pub open spec fn ec2_key_of_entries(entries: Seq<(CborItemView, CborItemView)>) -> Result<
    Seq<u8>,
    AppError,
> {
    match cose_int(entries, 1, Refusal::CoseKtyMissing) {
        Err(e) => Err(e),
        Ok(kty) => if kty != COSE_KTY_EC2 {
            Err(AppError::BadRequest(Refusal::CoseKtyUnsupported))
        } else {
            match cose_alg(entries) {
                Err(e) => Err(e),
                Ok(_) => match cose_int(entries, -1, Refusal::CoseCrvMissing) {
                    Err(e) => Err(e),
                    Ok(crv) => if crv != COSE_CRV_P256 {
                        Err(AppError::BadRequest(Refusal::CoseCrvUnsupported))
                    } else {
                        cose_point(entries)
                    },
                },
            }
        },
    }
}

/// The public key that a COSE key holds.
pub open spec fn ec2_key(document: Option<CborView>) -> Result<Seq<u8>, AppError> {
    match document {
        None => Err(AppError::BadRequest(Refusal::CoseInvalid)),
        Some(CborView::Other) => Err(AppError::BadRequest(Refusal::CoseNotMap)),
        Some(CborView::Entries(entries)) => ec2_key_of_entries(entries),
    }
}

/// The view of a result that holds bytes.
pub open spec fn bytes_result(r: Result<Vec<u8>, AppError>) -> Result<Seq<u8>, AppError> {
    match r {
        Ok(b) => Ok(b@),
        Err(e) => Err(e),
    }
}

/// The bytes of a CBOR item that must be a byte string.
pub fn cbor_as_bytes(v: &CborItem) -> (r: Result<&Vec<u8>, AppError>)
    ensures
        match r {
            Ok(b) => item_bytes(v@) == Ok::<Seq<u8>, AppError>(b@),
            Err(e) => item_bytes(v@) == Err::<Seq<u8>, AppError>(e),
        },
{
    match v {
        CborItem::Bytes(b) => Ok(b),
        _ => Err(AppError::BadRequest(Refusal::CborNotBytes)),
    }
}

/// The integer of a CBOR item that must be one.
pub fn cbor_as_int(v: &CborItem) -> (r: Result<i128, AppError>)
    ensures
        match r {
            Ok(i) => item_int(v@) == Ok::<int, AppError>(i as int),
            Err(e) => item_int(v@) == Err::<int, AppError>(e),
        },
{
    match v {
        CborItem::Integer(i) => Ok(*i),
        _ => Err(AppError::BadRequest(Refusal::CborNotInteger)),
    }
}

/// The integer that a COSE key must have under `label`.
fn required_int(map: &Vec<(CborItem, CborItem)>, label: i128, missing: Refusal) -> (r: Result<
    i128,
    AppError,
>)
    ensures
        match r {
            Ok(i) => cose_int(cbor::entries_view(map@), label as int, missing) == Ok::<
                int,
                AppError,
            >(i as int),
            Err(e) => cose_int(cbor::entries_view(map@), label as int, missing) == Err::<
                int,
                AppError,
            >(e),
        },
{
    match cbor::cbor_map_get_int(map, label) {
        Some(item) => cbor_as_int(item),
        None => Err(AppError::BadRequest(missing)),
    }
}

/// The bytes that a COSE key must have under `label`.
fn required_bytes(map: &Vec<(CborItem, CborItem)>, label: i128, missing: Refusal) -> (r: Result<
    &Vec<u8>,
    AppError,
>)
    ensures
        match r {
            Ok(b) => cose_bytes(cbor::entries_view(map@), label as int, missing) == Ok::<
                Seq<u8>,
                AppError,
            >(b@),
            Err(e) => cose_bytes(cbor::entries_view(map@), label as int, missing) == Err::<
                Seq<u8>,
                AppError,
            >(e),
        },
{
    match cbor::cbor_map_get_int(map, label) {
        Some(item) => cbor_as_bytes(item),
        None => Err(AppError::BadRequest(missing)),
    }
}

/// The public key that a COSE key holds, as an uncompressed point of P-256.
pub fn ec2_public_key(document: Option<CborDocument>) -> (r: Result<Vec<u8>, AppError>)
    ensures
        bytes_result(r) == ec2_key(cbor::document_view(document)),
{
    let map = match document {
        None => return Err(AppError::BadRequest(Refusal::CoseInvalid)),
        Some(CborDocument::Other) => return Err(AppError::BadRequest(Refusal::CoseNotMap)),
        Some(CborDocument::Entries(map)) => map,
    };
    let kty = match required_int(&map, 1, Refusal::CoseKtyMissing) {
        Ok(kty) => kty,
        Err(e) => return Err(e),
    };
    if kty != COSE_KTY_EC2 {
        return Err(AppError::BadRequest(Refusal::CoseKtyUnsupported));
    }
    if let Some(alg) = cbor::cbor_map_get_int(&map, 3) {
        match cbor_as_int(alg) {
            Ok(alg) => {
                if alg != COSE_ALG_ES256 {
                    return Err(AppError::BadRequest(Refusal::CoseAlgUnsupported));
                }
            },
            Err(e) => return Err(e),
        }
    }
    let crv = match required_int(&map, -1, Refusal::CoseCrvMissing) {
        Ok(crv) => crv,
        Err(e) => return Err(e),
    };
    if crv != COSE_CRV_P256 {
        return Err(AppError::BadRequest(Refusal::CoseCrvUnsupported));
    }
    let x = match required_bytes(&map, -2, Refusal::CoseXMissing) {
        Ok(x) => x,
        Err(e) => return Err(e),
    };
    let y = match required_bytes(&map, -3, Refusal::CoseYMissing) {
        Ok(y) => y,
        Err(e) => return Err(e),
    };
    if x.len() != 32 || y.len() != 32 {
        return Err(AppError::BadRequest(Refusal::PublicKeySize));
    }
    let mut uncompressed: Vec<u8> = Vec::with_capacity(65);
    uncompressed.push(0x04);
    uncompressed.extend_from_slice(x.as_slice());
    uncompressed.extend_from_slice(y.as_slice());
    assert(uncompressed@ =~= uncompressed_point(x@, y@));
    Ok(uncompressed)
}

/// Reads a COSE key from the start of `cose`; bytes behind it change nothing.
pub fn parse_cose_ec2_public_key(cose: &[u8]) -> (r: Result<Vec<u8>, AppError>)
    ensures
        bytes_result(r) == ec2_key(outside::cbor_decoded(cose@)),
        r is Ok ==> forall|tail: Seq<u8>|
            ec2_key(#[trigger] outside::cbor_decoded(cose@ + tail)) == ec2_key(
                outside::cbor_decoded(cose@),
            ),
{
    ec2_public_key(outside::read_cbor(cose))
}

/// A public key that was accepted is an uncompressed point of P-256.
pub proof fn law_accepted_key_is_point(document: Option<CborView>)
    requires
        ec2_key(document) is Ok,
    ensures
        is_uncompressed_p256(ec2_key(document)->Ok_0),
{
}

/// A COSE key is accepted exactly where it says that it is an elliptic-curve key with two coordinates
/// (2), on P-256 (1), of no algorithm but ES256 (-7), and has two coordinates of 32 bytes. What is
/// read is the byte 4, and then the coordinates.
pub proof fn law_es256_keys_are_accepted(entries: Seq<(CborItemView, CborItemView)>)
    ensures
        ({
            let under = |label: int| cbor::entry_under(entries, CborItemView::Integer(label));
            let key = ec2_key(Some(CborView::Entries(entries)));
            &&& key is Ok <==> {
                &&& under(1) == Some(CborItemView::Integer(2))
                &&& under(3) is None || under(3) == Some(CborItemView::Integer(-7))
                &&& under(-1) == Some(CborItemView::Integer(1))
                &&& under(-2) matches Some(CborItemView::Bytes(x)) && x.len() == 32
                &&& under(-3) matches Some(CborItemView::Bytes(y)) && y.len() == 32
            }
            &&& key matches Ok(point) ==> {
                &&& point.len() == 65
                &&& point[0] == 4
                &&& under(-2) == Some(CborItemView::Bytes(point.subrange(1, 33)))
                &&& under(-3) == Some(CborItemView::Bytes(point.subrange(33, 65)))
            }
        }),
{
    if let Ok(point) = ec2_key(Some(CborView::Entries(entries))) {
        let x = cose_bytes(entries, -2, Refusal::CoseXMissing)->Ok_0;
        let y = cose_bytes(entries, -3, Refusal::CoseYMissing)->Ok_0;
        assert(point == uncompressed_point(x, y));
        assert(point.subrange(1, 33) =~= x);
        assert(point.subrange(33, 65) =~= y);
    }
}

/// What is wrong with a COSE key is told in order: its kind of key, its algorithm where it names one,
/// its curve, and its coordinates; each may be missing, of another kind of item, or of another value.
pub proof fn law_cose_faults_are_told_in_order(entries: Seq<(CborItemView, CborItemView)>)
    ensures
        ({
            let under = |label: int| cbor::entry_under(entries, CborItemView::Integer(label));
            let key = ec2_key(Some(CborView::Entries(entries)));
            let fault = |why: Refusal| key == Err::<Seq<u8>, AppError>(AppError::BadRequest(why));
            let kty = under(1) == Some(CborItemView::Integer(2));
            let alg = kty && (under(3) is None || under(3) == Some(CborItemView::Integer(-7)));
            let crv = alg && under(-1) == Some(CborItemView::Integer(1));
            let x = crv && under(-2) is Some && (under(-2)->0) is Bytes;
            &&& under(1) is None ==> fault(Refusal::CoseKtyMissing)
            &&& under(1) is Some && !((under(1)->0) is Integer) ==> fault(Refusal::CborNotInteger)
            &&& under(1) is Some && (under(1)->0) is Integer && !kty ==> fault(
                Refusal::CoseKtyUnsupported,
            )
            &&& kty && under(3) is Some && !((under(3)->0) is Integer) ==> fault(
                Refusal::CborNotInteger,
            )
            &&& kty && under(3) is Some && (under(3)->0) is Integer && !alg ==> fault(
                Refusal::CoseAlgUnsupported,
            )
            &&& alg && under(-1) is None ==> fault(Refusal::CoseCrvMissing)
            &&& alg && under(-1) is Some && !((under(-1)->0) is Integer) ==> fault(
                Refusal::CborNotInteger,
            )
            &&& alg && under(-1) is Some && (under(-1)->0) is Integer && !crv ==> fault(
                Refusal::CoseCrvUnsupported,
            )
            &&& crv && under(-2) is None ==> fault(Refusal::CoseXMissing)
            &&& crv && under(-2) is Some && !((under(-2)->0) is Bytes) ==> fault(
                Refusal::CborNotBytes,
            )
            &&& x && under(-3) is None ==> fault(Refusal::CoseYMissing)
            &&& x && under(-3) is Some && !((under(-3)->0) is Bytes) ==> fault(
                Refusal::CborNotBytes,
            )
            &&& x && under(-3) is Some && (under(-3)->0) is Bytes && key is Err ==> fault(
                Refusal::PublicKeySize,
            )
        }),
{
}

/// What is no map of CBOR is no COSE key.
pub proof fn law_cose_keys_are_maps(document: Option<CborView>)
    ensures
        document is None ==> ec2_key(document) == Err::<Seq<u8>, AppError>(
            AppError::BadRequest(Refusal::CoseInvalid),
        ),
        document == Some(CborView::Other) ==> ec2_key(document) == Err::<Seq<u8>, AppError>(
            AppError::BadRequest(Refusal::CoseNotMap),
        ),
{
}

/// Whether `pk` has the form of an uncompressed point of P-256.
pub open spec fn is_uncompressed_p256(pk: Seq<u8>) -> bool {
    pk.len() == 65 && pk[0] == 4
}

/// Checks the form of an uncompressed point of P-256.
pub fn validating_uncompressed_p256(pk: &[u8]) -> (r: Result<(), AppError>)
    ensures
        r == checked(
            if is_uncompressed_p256(pk@) {
                None
            } else {
                Some(Refusal::PublicKeyEncoding)
            },
        ),
{
    if pk.len() != 65 || pk[0] != 0x04 {
        return Err(AppError::BadRequest(Refusal::PublicKeyEncoding));
    }
    Ok(())
}

// ---------------------------------------------------------------------------------------------
// Authenticator data
// ---------------------------------------------------------------------------------------------

/// The layout of authenticator data.
#[derive(Debug)]
pub struct AuthDataParts {
    pub flags: u8,
    pub sign_count: u32,
    /// The credential id and the bytes from which its COSE key is read.
    pub attested: Option<(Vec<u8>, Vec<u8>)>,
}

/// What is read of authenticator data.
#[derive(Debug)]
pub struct AuthDataParsed {
    pub flags: u8,
    pub sign_count: u32,
    pub cred_id: Option<Vec<u8>>,
    pub public_key: Option<Vec<u8>>,
}

/// What authenticator data says.
pub struct AuthDataView {
    pub flags: u8,
    pub sign_count: int,
    pub cred_id: Option<Seq<u8>>,
    pub public_key: Option<Seq<u8>>,
}

impl View for AuthDataParsed {
    type V = AuthDataView;

    open spec fn view(&self) -> AuthDataView {
        AuthDataView {
            flags: self.flags,
            sign_count: self.sign_count as int,
            cred_id: outside::bytes_view(self.cred_id),
            public_key: outside::bytes_view(self.public_key),
        }
    }
}

/// The attested part of authenticator data.
pub open spec fn attested_view(attested: Option<(Vec<u8>, Vec<u8>)>) -> Option<
    (Seq<u8>, Seq<u8>),
> {
    match attested {
        Some((id, cose)) => Some((id@, cose@)),
        None => None,
    }
}

/// Whether a flag is set.
pub open spec fn has_flag(flags: u8, flag: u8) -> bool {
    flags & flag != 0
}

/// The signature counter: four bytes, the most significant first.
pub open spec fn counter_of(data: Seq<u8>) -> int {
    data[33] * 16777216 + data[34] * 65536 + data[35] * 256 + data[36]
}

/// The length of the credential id: two bytes after the sixteen of the AAGUID.
pub open spec fn cred_id_len(data: Seq<u8>) -> int {
    data[53] * 256 + data[54]
}

/// The attested credential id and what follows it.
pub open spec fn attested_of(data: Seq<u8>) -> Result<Option<(Seq<u8>, Seq<u8>)>, AppError> {
    if !has_flag(data[32], FLAG_AT) {
        Ok(None)
    } else if data.len() < 55 {
        Err(AppError::BadRequest(Refusal::AttestedDataTruncated))
    } else if data.len() < 55 + cred_id_len(data) {
        Err(AppError::BadRequest(Refusal::CredentialIdTruncated))
    } else {
        Ok(
            Some(
                (data.subrange(55, 55 + cred_id_len(data)), data.skip(55 + cred_id_len(data))),
            ),
        )
    }
}

/// What is wrong with the head of authenticator data for a relying party with this digest.
pub open spec fn auth_data_head(data: Seq<u8>, expected_rp: Seq<u8>) -> Option<Refusal> {
    if data.len() < 37 {
        Some(Refusal::AuthDataTooShort)
    } else if data.take(32) != expected_rp {
        Some(Refusal::RpIdMismatch)
    } else {
        None
    }
}

/// Lays out authenticator data for a relying party with the digest `expected_rp`.
pub fn split_authenticator_data(auth_data: &[u8], expected_rp: &[u8]) -> (r: Result<
    AuthDataParts,
    AppError,
>)
    ensures
        match auth_data_head(auth_data@, expected_rp@) {
            Some(why) => r == Err::<AuthDataParts, AppError>(AppError::BadRequest(why)),
            None => match attested_of(auth_data@) {
                Err(e) => r == Err::<AuthDataParts, AppError>(e),
                Ok(attested) => {
                    &&& r matches Ok(parts)
                    &&& parts.flags == auth_data@[32]
                    &&& parts.sign_count == counter_of(auth_data@)
                    &&& attested_view(parts.attested) == attested
                },
            },
        },
{
    if auth_data.len() < 37 {
        return Err(AppError::BadRequest(Refusal::AuthDataTooShort));
    }
    let head = vstd::slice::slice_subrange(auth_data, 0, 32);
    assert(head@ =~= auth_data@.take(32));
    if !bytes_equal(head, expected_rp) {
        return Err(AppError::BadRequest(Refusal::RpIdMismatch));
    }
    let flags = auth_data[32];
    let sign_count: u32 = auth_data[33] as u32 * 16777216 + auth_data[34] as u32 * 65536
        + auth_data[35] as u32 * 256 + auth_data[36] as u32;
    if flags & FLAG_AT == 0 {
        return Ok(AuthDataParts { flags, sign_count, attested: None });
    }
    if auth_data.len() < 55 {
        return Err(AppError::BadRequest(Refusal::AttestedDataTruncated));
    }
    let cred_len: usize = auth_data[53] as usize * 256 + auth_data[54] as usize;
    if auth_data.len() - 55 < cred_len {
        return Err(AppError::BadRequest(Refusal::CredentialIdTruncated));
    }
    let id = vstd::slice::slice_subrange(auth_data, 55, 55 + cred_len);
    let cose = vstd::slice::slice_subrange(auth_data, 55 + cred_len, auth_data.len());
    assert(cose@ =~= auth_data@.skip(55 + cred_len));
    Ok(
        AuthDataParts {
            flags,
            sign_count,
            attested: Some((vstd::slice::slice_to_vec(id), vstd::slice::slice_to_vec(cose))),
        },
    )
}

/// Whether two byte strings are equal.
pub fn bytes_equal(a: &[u8], b: &[u8]) -> (r: bool)
    ensures
        r == (a@ == b@),
{
    if a.len() != b.len() {
        return false;
    }
    let mut i: usize = 0;
    while i < a.len()
        invariant
            a.len() == b.len(),
            i <= a.len(),
            a@.take(i as int) == b@.take(i as int),
        decreases a.len() - i,
    {
        if a[i] != b[i] {
            return false;
        }
        assert(a@.take(i + 1) =~= a@.take(i as int).push(a@[i as int]));
        assert(b@.take(i + 1) =~= b@.take(i as int).push(b@[i as int]));
        i = i + 1;
    }
    assert(a@.take(a@.len() as int) =~= a@);
    assert(b@.take(b@.len() as int) =~= b@);
    true
}

/// What is read of laid out authenticator data, once its COSE key was read as CBOR.
pub open spec fn auth_data_with_key(
    flags: u8,
    sign_count: int,
    attested: Option<(Seq<u8>, Seq<u8>)>,
    document: Option<CborView>,
) -> Result<AuthDataView, AppError> {
    match attested {
        None => Ok(AuthDataView { flags, sign_count, cred_id: None, public_key: None }),
        Some((id, _)) => match ec2_key(document) {
            Err(e) => Err(e),
            Ok(key) => Ok(
                AuthDataView { flags, sign_count, cred_id: Some(id), public_key: Some(key) },
            ),
        },
    }
}

/// The view of a result that holds what was read of authenticator data.
pub open spec fn auth_data_result(r: Result<AuthDataParsed, AppError>) -> Result<
    AuthDataView,
    AppError,
> {
    match r {
        Ok(parsed) => Ok(parsed@),
        Err(e) => Err(e),
    }
}

/// Completes laid out authenticator data with what was read of its COSE key as CBOR.
pub fn complete_authenticator_data(parts: AuthDataParts, document: Option<CborDocument>) -> (r:
    Result<AuthDataParsed, AppError>)
    ensures
        auth_data_result(r) == auth_data_with_key(
            parts.flags,
            parts.sign_count as int,
            attested_view(parts.attested),
            cbor::document_view(document),
        ),
{
    match parts.attested {
        None => Ok(
            AuthDataParsed {
                flags: parts.flags,
                sign_count: parts.sign_count,
                cred_id: None,
                public_key: None,
            },
        ),
        Some((id, _cose)) => match ec2_public_key(document) {
            Err(e) => Err(e),
            Ok(key) => Ok(
                AuthDataParsed {
                    flags: parts.flags,
                    sign_count: parts.sign_count,
                    cred_id: Some(id),
                    public_key: Some(key),
                },
            ),
        },
    }
}

/// What authenticator data says to the relying party with the id `rp_id`.
pub open spec fn auth_data_said(data: Seq<u8>, rp_id: Seq<char>) -> Result<AuthDataView, AppError> {
    match auth_data_head(data, rp_hash(rp_id)) {
        Some(why) => Err(AppError::BadRequest(why)),
        None => match attested_of(data) {
            Err(e) => Err(e),
            Ok(attested) => auth_data_with_key(
                data[32],
                counter_of(data),
                attested,
                match attested {
                    Some((_, cose)) => outside::cbor_decoded(cose),
                    None => None,
                },
            ),
        },
    }
}

/// Authenticator data is read exactly where it has its first 37 bytes, begins with the digest of the
/// relying party id and, where its flags say that a credential is attested, holds a credential id of
/// the length it gives and a COSE key. The flags are its byte 32; the signature counter is the four
/// bytes that follow, the most significant first.
pub proof fn law_auth_data_is_read_by_its_layout(data: Seq<u8>, rp_id: Seq<char>)
    ensures
        ({
            let said = auth_data_said(data, rp_id);
            let n = data[53] * 256 + data[54];
            let attested = data[32] & 0x40 != 0;
            let key = ec2_key(outside::cbor_decoded(data.skip(55 + n)));
            &&& said is Ok <==> {
                &&& data.len() >= 37
                &&& data.take(32) == outside::sha256_of(vstd::utf8::encode_utf8(rp_id))
                &&& attested ==> data.len() >= 55 + n && data.len() >= 55 && key is Ok
            }
            &&& said matches Ok(view) ==> {
                &&& view.flags == data[32]
                &&& view.sign_count == ((data[33] * 256 + data[34]) * 256 + data[35]) * 256
                    + data[36]
                &&& view.cred_id == (if attested {
                    Some(data.subrange(55, 55 + n))
                } else {
                    None
                })
                &&& view.public_key == (if attested {
                    Some(key->Ok_0)
                } else {
                    None
                })
            }
            &&& data.len() < 37 ==> said == Err::<AuthDataView, AppError>(
                AppError::BadRequest(Refusal::AuthDataTooShort),
            )
            &&& data.len() >= 37 && data.take(32) != outside::sha256_of(
                vstd::utf8::encode_utf8(rp_id),
            ) ==> said == Err::<AuthDataView, AppError>(AppError::BadRequest(Refusal::RpIdMismatch))
            &&& data.len() >= 37 && data.take(32) == outside::sha256_of(
                vstd::utf8::encode_utf8(rp_id),
            ) && attested ==> {
                &&& data.len() < 55 ==> said == Err::<AuthDataView, AppError>(
                    AppError::BadRequest(Refusal::AttestedDataTruncated),
                )
                &&& 55 <= data.len() < 55 + n ==> said == Err::<AuthDataView, AppError>(
                    AppError::BadRequest(Refusal::CredentialIdTruncated),
                )
                &&& data.len() >= 55 + n && data.len() >= 55 && key is Err ==> said == Err::<
                    AuthDataView,
                    AppError,
                >(key->Err_0)
            }
        }),
{
}

/// Bytes behind authenticator data change nothing, where they change nothing for its COSE key.
proof fn lemma_auth_data_tail(data: Seq<u8>, tail: Seq<u8>, rp_id: Seq<char>)
    requires
        auth_data_said(data, rp_id) is Ok,
        attested_of(data) matches Ok(Some((_, cose))) ==> outside::cbor_decoded(cose + tail)
            == outside::cbor_decoded(cose),
    ensures
        auth_data_said(data + tail, rp_id) == auth_data_said(data, rp_id),
{
    let longer = data + tail;
    assert(longer.take(32) =~= data.take(32));
    assert(counter_of(longer) == counter_of(data));
    if has_flag(data[32], FLAG_AT) {
        let end = 55 + cred_id_len(data);
        assert(cred_id_len(longer) == cred_id_len(data));
        assert(longer.subrange(55, end) =~= data.subrange(55, end));
        assert(longer.skip(end) =~= data.skip(end) + tail);
    }
}

/// Reads authenticator data for a relying party. Bytes behind what is read, such as those of
/// extensions, change nothing.
pub fn parse_authenticator_data(auth_data: &[u8], rp: &RelyingParty) -> (r: Result<
    AuthDataParsed,
    AppError,
>)
    ensures
        auth_data_result(r) == auth_data_said(auth_data@, rp.rp_id@),
        r is Ok ==> forall|tail: Seq<u8>| #[trigger]
            auth_data_said(auth_data@ + tail, rp.rp_id@) == auth_data_said(
                auth_data@,
                rp.rp_id@,
            ),
{
    let expected_rp = rp_id_hash(rp.rp_id.as_str());
    let parts = match split_authenticator_data(auth_data, expected_rp.as_slice()) {
        Ok(parts) => parts,
        Err(e) => return Err(e),
    };
    let document = match &parts.attested {
        Some((_id, cose)) => outside::read_cbor(cose.as_slice()),
        None => None,
    };
    let parsed = complete_authenticator_data(parts, document);
    proof {
        if parsed is Ok {
            assert forall|tail: Seq<u8>| #[trigger]
                auth_data_said(auth_data@ + tail, rp.rp_id@) == auth_data_said(
                    auth_data@,
                    rp.rp_id@,
                ) by {
                lemma_auth_data_tail(auth_data@, tail, rp.rp_id@);
            }
        }
    }
    parsed
}

// ---------------------------------------------------------------------------------------------
// Registration
// ---------------------------------------------------------------------------------------------

/// The authenticator data inside an attestation object.
pub open spec fn attested_auth_data(document: Option<CborView>) -> Result<Seq<u8>, AppError> {
    match document {
        None => Err(AppError::BadRequest(Refusal::AttestationInvalid)),
        Some(CborView::Other) => Err(AppError::BadRequest(Refusal::AttestationNotMap)),
        Some(CborView::Entries(entries)) => match cbor::entry_under(
            entries,
            CborItemView::Text("authData"@),
        ) {
            None => Err(AppError::BadRequest(Refusal::AuthDataMissing)),
            Some(item) => item_bytes(item),
        },
    }
}

/// The authenticator data inside an attestation object that was read as CBOR.
pub fn auth_data_of_attestation(document: Option<CborDocument>) -> (r: Result<Vec<u8>, AppError>)
    ensures
        bytes_result(r) == attested_auth_data(cbor::document_view(document)),
{
    let map = match document {
        None => return Err(AppError::BadRequest(Refusal::AttestationInvalid)),
        Some(CborDocument::Other) => return Err(AppError::BadRequest(Refusal::AttestationNotMap)),
        Some(CborDocument::Entries(map)) => map,
    };
    match cbor::cbor_map_get(&map, "authData") {
        None => Err(AppError::BadRequest(Refusal::AuthDataMissing)),
        Some(item) => match cbor_as_bytes(item) {
            Ok(b) => Ok(vstd::slice::slice_to_vec(b.as_slice())),
            Err(e) => Err(e),
        },
    }
}

/// A credential that was accepted, before it is written as text.
#[derive(Debug)]
pub struct AcceptedCredential {
    pub cred_id: Vec<u8>,
    pub public_key: Vec<u8>,
    pub sign_count: u32,
    pub backup_eligible: bool,
    pub backup_state: bool,
}

/// What an accepted credential is.
pub struct CredentialView {
    pub cred_id: Seq<u8>,
    pub public_key: Seq<u8>,
    pub sign_count: int,
    pub backup_eligible: bool,
    pub backup_state: bool,
}

impl View for AcceptedCredential {
    type V = CredentialView;

    open spec fn view(&self) -> CredentialView {
        CredentialView {
            cred_id: self.cred_id@,
            public_key: self.public_key@,
            sign_count: self.sign_count as int,
            backup_eligible: self.backup_eligible,
            backup_state: self.backup_state,
        }
    }
}

/// The credential that authenticator data attests, for a client that names it by `raw_id`.
pub open spec fn attested_credential(said: AuthDataView, raw_id: Option<Seq<u8>>) -> Result<
    CredentialView,
    AppError,
> {
    if !has_flag(said.flags, FLAG_UP) {
        Err(AppError::BadRequest(Refusal::PresenceForRegistration))
    } else if said.cred_id is None {
        Err(AppError::BadRequest(Refusal::AttestedCredentialMissing))
    } else if said.public_key is None {
        Err(AppError::BadRequest(Refusal::PublicKeyMissing))
    } else if raw_id is None {
        Err(AppError::BadRequest(Refusal::Base64Invalid))
    } else if raw_id != said.cred_id {
        Err(AppError::BadRequest(Refusal::CredentialIdMismatch))
    } else if !is_uncompressed_p256(said.public_key->0) {
        Err(AppError::BadRequest(Refusal::PublicKeyEncoding))
    } else {
        Ok(
            CredentialView {
                cred_id: said.cred_id->0,
                public_key: said.public_key->0,
                sign_count: said.sign_count,
                backup_eligible: has_flag(said.flags, FLAG_BE),
                backup_state: has_flag(said.flags, FLAG_BS),
            },
        )
    }
}

/// Accepts the credential that authenticator data attests, or says what is wrong with it.
pub fn accept_attested_credential(parsed: AuthDataParsed, raw_id: Option<Vec<u8>>) -> (r: Result<
    AcceptedCredential,
    AppError,
>)
    ensures
        match r {
            Ok(c) => attested_credential(parsed@, outside::bytes_view(raw_id)) == Ok::<
                CredentialView,
                AppError,
            >(c@),
            Err(e) => attested_credential(parsed@, outside::bytes_view(raw_id)) == Err::<
                CredentialView,
                AppError,
            >(e),
        },
{
    if parsed.flags & FLAG_UP == 0 {
        return Err(AppError::BadRequest(Refusal::PresenceForRegistration));
    }
    let cred_id = match parsed.cred_id {
        Some(id) => id,
        None => return Err(AppError::BadRequest(Refusal::AttestedCredentialMissing)),
    };
    let public_key = match parsed.public_key {
        Some(key) => key,
        None => return Err(AppError::BadRequest(Refusal::PublicKeyMissing)),
    };
    let raw_id = match raw_id {
        Some(id) => id,
        None => return Err(AppError::BadRequest(Refusal::Base64Invalid)),
    };
    if !bytes_equal(raw_id.as_slice(), cred_id.as_slice()) {
        return Err(AppError::BadRequest(Refusal::CredentialIdMismatch));
    }
    match validating_uncompressed_p256(public_key.as_slice()) {
        Ok(_) => {},
        Err(e) => return Err(e),
    }
    Ok(
        AcceptedCredential {
            cred_id,
            public_key,
            sign_count: parsed.sign_count,
            backup_eligible: parsed.flags & FLAG_BE != 0,
            backup_state: parsed.flags & FLAG_BS != 0,
        },
    )
}

/// What is wrong with the client data text of a ceremony and the reading of it.
pub open spec fn client_data_text_fault(
    client_data_json: Seq<char>,
    reading: Option<ClientData>,
    expected_type: Seq<char>,
    expected_challenge: Seq<char>,
    expected_origin: String,
) -> Option<Refusal> {
    if b64url_bytes(client_data_json) is None {
        Some(Refusal::Base64Invalid)
    } else if reading is None {
        Some(Refusal::ClientDataInvalid)
    } else {
        client_data_fault(
            reading->0,
            expected_type,
            same_challenge(expected_challenge, (reading->0).challenge@),
            expected_origin,
        )
    }
}

/// The credential that a finished registration stores, before it is written as text.
pub open spec fn registered_credential(
    rp: RelyingParty,
    state: RegisterChallengeState,
    credential: RegisterPublicKeyCredential,
    client_data: Option<ClientData>,
) -> Result<CredentialView, AppError> {
    let client_fault = client_data_text_fault(
        credential.response.client_data_json@,
        client_data,
        "webauthn.create"@,
        state.challenge@,
        rp.origin,
    );
    let object = b64url_bytes(credential.response.attestation_object@);
    if credential.type_@ != "public-key"@ {
        Err(AppError::BadRequest(Refusal::CredentialType))
    } else if client_fault is Some {
        Err(AppError::BadRequest(client_fault->0))
    } else if object is None {
        Err(AppError::BadRequest(Refusal::Base64Invalid))
    } else {
        match attested_auth_data(outside::cbor_decoded(object->0)) {
            Err(e) => Err(e),
            Ok(data) => match auth_data_said(data, rp.rp_id@) {
                Err(e) => Err(e),
                Ok(said) => attested_credential(said, b64url_bytes(credential.raw_id@)),
            },
        }
    }
}

/// Whether a stored credential is the text form of an accepted one, without padding.
pub open spec fn stores(stored: StoredCredential, accepted: CredentialView) -> bool {
    &&& stored.cred_id@ == base64url_text(accepted.cred_id)
    &&& stored.public_key@ == base64url_text(accepted.public_key)
    &&& outside::url_safe(stored.cred_id@)
    &&& outside::url_safe(stored.public_key@)
    &&& b64url_bytes(stored.cred_id@) == Some(accepted.cred_id)
    &&& b64url_bytes(stored.public_key@) == Some(accepted.public_key)
    &&& stored.sign_count == accepted.sign_count
    &&& stored.backup_eligible == accepted.backup_eligible
    &&& stored.backup_state == accepted.backup_state
}

/// The base64url text of some bytes, without padding.
pub open spec fn base64url_text(data: Seq<u8>) -> Seq<char> {
    outside::base64url_encoded(data)
}

/// Writes an accepted credential as it is stored.
pub fn stored_credential(accepted: &AcceptedCredential) -> (r: StoredCredential)
    ensures
        stores(r, accepted@),
{
    StoredCredential {
        cred_id: b64url_encode(accepted.cred_id.as_slice()),
        public_key: b64url_encode(accepted.public_key.as_slice()),
        sign_count: accepted.sign_count,
        backup_eligible: accepted.backup_eligible,
        backup_state: accepted.backup_state,
    }
}

/// Finishes a registration: checks the client's answer and returns the credential to store.
///
/// `client_data` is what the caller read as JSON from `client_data_bytes` of the answer, if it
/// could.
pub fn finish_registration(
    rp: &RelyingParty,
    state: &RegisterChallengeState,
    credential: &RegisterPublicKeyCredential,
    client_data: Option<ClientData>,
) -> (r: Result<StoredCredential, AppError>)
    ensures
        match registered_credential(*rp, *state, *credential, client_data) {
            Ok(accepted) => r matches Ok(stored) && stores(stored, accepted),
            Err(e) => r == Err::<StoredCredential, AppError>(e),
        },
{
    if !text::same_text(credential.type_.as_str(), "public-key") {
        return Err(AppError::BadRequest(Refusal::CredentialType));
    }
    let (data, _raw) = match parse_client_data(
        credential.response.client_data_json.as_str(),
        client_data,
    ) {
        Ok(p) => p,
        Err(e) => return Err(e),
    };
    match verify_client_data(&data, "webauthn.create", state.challenge.as_str(), &rp.origin) {
        Ok(_) => {},
        Err(e) => return Err(e),
    }
    let object = match b64url_decode(credential.response.attestation_object.as_str()) {
        Ok(object) => object,
        Err(e) => return Err(e),
    };
    let auth_data = match auth_data_of_attestation(outside::read_cbor(object.as_slice())) {
        Ok(auth_data) => auth_data,
        Err(e) => return Err(e),
    };
    let parsed = match parse_authenticator_data(auth_data.as_slice(), rp) {
        Ok(parsed) => parsed,
        Err(e) => return Err(e),
    };
    match accept_attested_credential(parsed, b64url_decode(credential.raw_id.as_str()).ok()) {
        Ok(accepted) => Ok(stored_credential(&accepted)),
        Err(e) => Err(e),
    }
}

/// The list that names credentials to a client.
pub open spec fn descriptors(ids: Seq<String>) -> JsonView {
    JsonView::Array(Seq::new(ids.len(), |i: int| descriptor(ids[i]@)))
}

/// The entry that names a credential to a client.
pub open spec fn descriptor(id: Seq<char>) -> JsonView {
    JsonView::Object(
        json::no_fields()
            .push(("type"@, JsonView::Text("public-key"@)))
            .push(("id"@, JsonView::Text(id))),
    )
}

/// Names credentials to a client.
pub fn credential_descriptors(ids: &Vec<String>) -> (r: Json)
    ensures
        r@ == descriptors(ids@),
{
    let mut items: Vec<Json> = Vec::new();
    let mut i: usize = 0;
    while i < ids.len()
        invariant
            i <= ids.len(),
            items@.len() == i,
            forall|k: int| 0 <= k < i ==> (#[trigger] items@[k])@ == descriptor(ids@[k]@),
        decreases ids.len() - i,
    {
        let item = Fields::new().with("type", json::text("public-key")).with(
            "id",
            json::text(ids[i].as_str()),
        ).object();
        items.push(item);
        i = i + 1;
    }
    assert(json::items_view(items@) =~= descriptors(ids@)->Array_0);
    json::array(items)
}

/// The bytes by which an authenticator knows the user.
pub open spec fn user_handle_of(parsed: Option<Seq<u8>>, user_uuid: Seq<char>) -> Seq<u8> {
    match parsed {
        Some(b) => b,
        None => vstd::utf8::encode_utf8(user_uuid),
    }
}

/// The bytes by which an authenticator knows the user: those of the UUID where the user id is one,
/// and those of its text where it is not.
pub fn user_handle_bytes(parsed: Option<Vec<u8>>, user_uuid: &str) -> (r: Vec<u8>)
    ensures
        r@ == user_handle_of(outside::bytes_view(parsed), user_uuid@),
{
    match parsed {
        Some(b) => b,
        None => vstd::slice::slice_to_vec(user_uuid.as_bytes()),
    }
}

/// The options that start a registration.
pub open spec fn creation_options(
    rp: RelyingParty,
    challenge: Seq<char>,
    user_handle: Seq<char>,
    user_email: Seq<char>,
    display_name: Seq<char>,
    exclude_cred_ids: Seq<String>,
) -> JsonView {
    let party = JsonView::Object(
        json::no_fields()
            .push(("name"@, JsonView::Text(rp.name@)))
            .push(("id"@, JsonView::Text(rp.rp_id@))),
    );
    let user = JsonView::Object(
        json::no_fields()
            .push(("id"@, JsonView::Text(user_handle)))
            .push(("name"@, JsonView::Text(user_email)))
            .push(("displayName"@, JsonView::Text(display_name))),
    );
    let es256 = JsonView::Object(
        json::no_fields()
            .push(("type"@, JsonView::Text("public-key"@)))
            .push(("alg"@, JsonView::Int(-7))),
    );
    let selection = JsonView::Object(
        json::no_fields()
            .push(("userVerification"@, JsonView::Text("discouraged"@)))
            .push(("requireResidentKey"@, JsonView::Bool(false)))
            .push(("residentKey"@, JsonView::Text("discouraged"@))),
    );
    JsonView::Object(
        json::no_fields()
            .push(("challenge"@, JsonView::Text(challenge)))
            .push(("rp"@, party))
            .push(("user"@, user))
            .push(("pubKeyCredParams"@, JsonView::Array(seq![es256])))
            .push(("timeout"@, JsonView::Int(60000)))
            .push(("attestation"@, JsonView::Text("none"@)))
            .push(("excludeCredentials"@, descriptors(exclude_cred_ids)))
            .push(("authenticatorSelection"@, selection))
            .push(("status"@, JsonView::Text("ok"@)))
            .push(("errorMessage"@, JsonView::Text(""@))),
    )
}

/// Whether this is how a registration with `challenge` starts.
pub open spec fn starts_registration(
    rp: RelyingParty,
    handle: Seq<u8>,
    user_email: Seq<char>,
    display_name: Seq<char>,
    exclude_cred_ids: Seq<String>,
    challenge: Seq<u8>,
    options: JsonView,
    state: RegisterChallengeState,
) -> bool {
    &&& state.challenge@ == base64url_text(challenge)
    &&& b64url_bytes(state.challenge@) == Some(challenge)
    &&& state.user_handle@ == base64url_text(handle)
    &&& b64url_bytes(state.user_handle@) == Some(handle)
    &&& options == creation_options(
        rp,
        state.challenge@,
        state.user_handle@,
        user_email,
        display_name,
        exclude_cred_ids,
    )
}

/// The options and the state of a registration with these bytes as challenge and user handle.
pub fn registration_ceremony(
    rp: &RelyingParty,
    handle: &Vec<u8>,
    user_email: &str,
    display_name: &str,
    exclude_cred_ids: &Vec<String>,
    challenge: &Vec<u8>,
) -> (r: (Json, RegisterChallengeState))
    ensures
        starts_registration(
            *rp,
            handle@,
            user_email@,
            display_name@,
            exclude_cred_ids@,
            challenge@,
            r.0@,
            r.1,
        ),
{
    let challenge_b64 = b64url_encode(challenge.as_slice());
    let user_handle = b64url_encode(handle.as_slice());
    let party = Fields::new().with("name", json::text(rp.name.as_str())).with(
        "id",
        json::text(rp.rp_id.as_str()),
    ).object();
    let user = Fields::new().with("id", json::text(user_handle.as_str())).with(
        "name",
        json::text(user_email),
    ).with("displayName", json::text(display_name)).object();
    let param = Fields::new().with("type", json::text("public-key")).with(
        "alg",
        Json::Int(-7),
    ).object();
    let mut params: Vec<Json> = Vec::new();
    params.push(param);
    assert(json::items_view(params@) =~= seq![param@]);
    let selection = Fields::new().with("userVerification", json::text("discouraged")).with(
        "requireResidentKey",
        Json::Bool(false),
    ).with("residentKey", json::text("discouraged")).object();
    let options = Fields::new().with("challenge", json::text(challenge_b64.as_str())).with(
        "rp",
        party,
    ).with("user", user).with("pubKeyCredParams", json::array(params)).with(
        "timeout",
        Json::Int(60000),
    ).with("attestation", json::text("none")).with(
        "excludeCredentials",
        credential_descriptors(exclude_cred_ids),
    ).with("authenticatorSelection", selection).with("status", json::text("ok")).with(
        "errorMessage",
        json::text(""),
    ).object();
    (options, RegisterChallengeState { challenge: challenge_b64, user_handle })
}

/// Whether this is how a registration starts: without random numbers it cannot, and otherwise it has
/// a challenge of the right length.
pub open spec fn registration_started(
    rp: RelyingParty,
    user_uuid: Seq<char>,
    user_email: Seq<char>,
    display_name: Seq<char>,
    exclude_cred_ids: Seq<String>,
    r: Result<(Json, RegisterChallengeState), AppError>,
) -> bool {
    match r {
        Err(e) => e == AppError::Internal && outside::drawn(CHALLENGE_LEN, None),
        Ok((options, state)) => {
            &&& b64url_bytes(state.challenge@) matches Some(challenge)
            &&& challenge.len() == CHALLENGE_LEN
            &&& outside::drawn(CHALLENGE_LEN, Some(challenge))
            &&& starts_registration(
                rp,
                user_handle_of(outside::uuid_decoded(user_uuid), user_uuid),
                user_email,
                display_name,
                exclude_cred_ids,
                challenge,
                options@,
                state,
            )
        },
    }
}

/// Starts a registration: the options for the client and the state to remember.
///
/// The challenge is random; everything else follows from the arguments.
pub fn start_registration(
    rp: &RelyingParty,
    user_uuid: &str,
    user_email: &str,
    display_name: &str,
    exclude_cred_ids: &Vec<String>,
) -> (r: Result<(Json, RegisterChallengeState), AppError>)
    ensures
        registration_started(
            *rp,
            user_uuid@,
            user_email@,
            display_name@,
            exclude_cred_ids@,
            r,
        ),
{
    let challenge = match random_challenge() {
        Ok(challenge) => challenge,
        Err(e) => return Err(e),
    };
    let handle = user_handle_bytes(outside::uuid_parse(user_uuid), user_uuid);
    Ok(
        registration_ceremony(
            rp,
            &handle,
            user_email,
            display_name,
            exclude_cred_ids,
            &challenge,
        ),
    )
}

// ---------------------------------------------------------------------------------------------
// Login
// ---------------------------------------------------------------------------------------------

/// The credential ids of registrations.
pub fn credential_ids(registrations: &Vec<WebauthnRegistration>) -> (r: Vec<String>)
    ensures
        r@ == ids_of(registrations@),
{
    let mut ids: Vec<String> = Vec::new();
    let mut i: usize = 0;
    while i < registrations.len()
        invariant
            i <= registrations.len(),
            ids@ == ids_of(registrations@).take(i as int),
        decreases registrations.len() - i,
    {
        ids.push(registrations[i].credential.cred_id.clone());
        assert(ids_of(registrations@).take(i + 1) =~= ids_of(registrations@).take(i as int).push(
            ids_of(registrations@)[i as int],
        ));
        i = i + 1;
    }
    assert(ids_of(registrations@).take(i as int) =~= ids_of(registrations@));
    ids
}

/// The credential ids of registrations.
pub open spec fn ids_of(registrations: Seq<WebauthnRegistration>) -> Seq<String> {
    Seq::new(registrations.len(), |i: int| registrations[i].credential.cred_id)
}

/// The options that start a login.
pub open spec fn request_options(rp: RelyingParty, challenge: Seq<char>, ids: Seq<String>) -> JsonView {
    let extensions = JsonView::Object(
        json::no_fields().push(
            ("appid"@, JsonView::Text(text::trimmed_end_of(rp.origin@, '/') + "/app-id.json"@)),
        ),
    );
    JsonView::Object(
        json::no_fields()
            .push(("challenge"@, JsonView::Text(challenge)))
            .push(("timeout"@, JsonView::Int(60000)))
            .push(("rpId"@, JsonView::Text(rp.rp_id@)))
            .push(("allowCredentials"@, descriptors(ids)))
            .push(("userVerification"@, JsonView::Text("discouraged"@)))
            .push(("extensions"@, extensions)),
    )
}

/// Whether this is how a login with `challenge` starts.
pub open spec fn starts_login(
    rp: RelyingParty,
    registrations: Seq<WebauthnRegistration>,
    challenge: Seq<u8>,
    options: JsonView,
    state: LoginChallengeState,
) -> bool {
    &&& state.challenge@ == base64url_text(challenge)
    &&& b64url_bytes(state.challenge@) == Some(challenge)
    &&& state.allow_credential_ids@ == ids_of(registrations)
    &&& options == request_options(rp, state.challenge@, ids_of(registrations))
}

/// The options and the state of a login with these bytes as challenge.
pub fn login_ceremony(
    rp: &RelyingParty,
    registrations: &Vec<WebauthnRegistration>,
    challenge: &Vec<u8>,
) -> (r: (Json, LoginChallengeState))
    ensures
        starts_login(*rp, registrations@, challenge@, r.0@, r.1),
{
    let challenge_b64 = b64url_encode(challenge.as_slice());
    let ids = credential_ids(registrations);
    let origin = text::trim_end_of(rp.origin.as_str(), '/');
    let app_id = text::join(origin.as_str(), "/app-id.json");
    let extensions = Fields::new().with("appid", json::text(app_id.as_str())).object();
    let options = Fields::new().with("challenge", json::text(challenge_b64.as_str())).with(
        "timeout",
        Json::Int(60000),
    ).with("rpId", json::text(rp.rp_id.as_str())).with(
        "allowCredentials",
        credential_descriptors(&ids),
    ).with("userVerification", json::text("discouraged")).with("extensions", extensions).object();
    (options, LoginChallengeState { challenge: challenge_b64, allow_credential_ids: ids })
}

/// Whether this is how a login starts: with a registration there is, and with random numbers, it has
/// a challenge of the right length.
pub open spec fn login_started(
    rp: RelyingParty,
    registrations: Seq<WebauthnRegistration>,
    r: Result<(Json, LoginChallengeState), AppError>,
) -> bool {
    match r {
        Err(e) => if registrations.len() == 0 {
            e == AppError::BadRequest(Refusal::NoDevices)
        } else {
            e == AppError::Internal && outside::drawn(CHALLENGE_LEN, None)
        },
        Ok((options, state)) => {
            &&& registrations.len() > 0
            &&& b64url_bytes(state.challenge@) matches Some(challenge)
            &&& challenge.len() == CHALLENGE_LEN
            &&& outside::drawn(CHALLENGE_LEN, Some(challenge))
            &&& starts_login(rp, registrations, challenge, options@, state)
        },
    }
}

/// Starts a login: the options for the client and the state to remember.
///
/// There must be a registration. The challenge is random; everything else follows from the
/// arguments.
pub fn start_authentication(rp: &RelyingParty, registrations: &Vec<WebauthnRegistration>) -> (r:
    Result<(Json, LoginChallengeState), AppError>)
    ensures
        login_started(*rp, registrations@, r),
{
    if registrations.len() == 0 {
        return Err(AppError::BadRequest(Refusal::NoDevices));
    }
    match random_challenge() {
        Ok(challenge) => Ok(login_ceremony(rp, registrations, &challenge)),
        Err(e) => Err(e),
    }
}

/// Whether a registration goes by one of two ids.
pub open spec fn goes_by(
    registration: WebauthnRegistration,
    cred_id: Seq<char>,
    id: Seq<char>,
) -> bool {
    registration.credential.cred_id@ == cred_id || registration.credential.cred_id@ == id
}

/// Where the first registration stands that goes by one of two ids.
pub open spec fn registration_going_by(
    registrations: Seq<WebauthnRegistration>,
    cred_id: Seq<char>,
    id: Seq<char>,
) -> Option<int>
    decreases registrations.len(),
{
    if registrations.len() == 0 {
        None
    } else if goes_by(registrations.first(), cred_id, id) {
        Some(0)
    } else {
        match registration_going_by(registrations.drop_first(), cred_id, id) {
            Some(i) => Some(i + 1),
            None => None,
        }
    }
}

/// `registration_going_by` finds a registration with none that would do before it.
pub proof fn lemma_registration_going_by(
    registrations: Seq<WebauthnRegistration>,
    cred_id: Seq<char>,
    id: Seq<char>,
)
    ensures
        match registration_going_by(registrations, cred_id, id) {
            Some(i) => {
                &&& 0 <= i < registrations.len()
                &&& goes_by(registrations[i], cred_id, id)
                &&& forall|k: int| 0 <= k < i ==> !goes_by(#[trigger] registrations[k], cred_id, id)
            },
            None => forall|k: int|
                0 <= k < registrations.len() ==> !goes_by(
                    #[trigger] registrations[k],
                    cred_id,
                    id,
                ),
        },
    decreases registrations.len(),
{
    if registrations.len() > 0 && !goes_by(registrations.first(), cred_id, id) {
        let rest = registrations.drop_first();
        lemma_registration_going_by(rest, cred_id, id);
        assert(forall|k: int|
            0 < k < registrations.len() ==> #[trigger] registrations[k] == rest[k - 1]);
    }
}

/// Finds the first registration that goes by one of two ids.
pub fn matching_registration(
    registrations: &Vec<WebauthnRegistration>,
    cred_id: &String,
    id: &String,
) -> (r: Option<usize>)
    ensures
        match r {
            Some(i) => registration_going_by(registrations@, cred_id@, id@) == Some(i as int),
            None => registration_going_by(registrations@, cred_id@, id@) is None,
        },
{
    let ghost all = registrations@;
    let mut i: usize = 0;
    assert(all.skip(0) =~= all);
    while i < registrations.len()
        invariant
            i <= registrations.len(),
            all == registrations@,
            registration_going_by(all, cred_id@, id@) == match registration_going_by(
                all.skip(i as int),
                cred_id@,
                id@,
            ) {
                Some(k) => Some(i + k),
                None => None,
            },
        decreases registrations.len() - i,
    {
        assert(all.skip(i as int).first() == all[i as int]);
        assert(all.skip(i as int).drop_first() =~= all.skip(i + 1));
        if registrations[i].credential.cred_id == *cred_id || registrations[i].credential.cred_id
            == *id {
            return Some(i);
        }
        i = i + 1;
    }
    None
}

/// Whether a login may use the credential that goes by one of three ids.
pub open spec fn login_allows(
    allowed: Seq<String>,
    cred_id: Seq<char>,
    id: Seq<char>,
    stored_id: Seq<char>,
) -> bool {
    exists|i: int|
        0 <= i < allowed.len() && ((#[trigger] allowed[i])@ == cred_id || allowed[i]@ == id
            || allowed[i]@ == stored_id)
}

/// Whether a login may use the credential that goes by one of three ids.
pub fn is_allowed(
    allowed: &Vec<String>,
    cred_id: &String,
    id: &String,
    stored_id: &String,
) -> (r: bool)
    ensures
        r == login_allows(allowed@, cred_id@, id@, stored_id@),
{
    let mut i: usize = 0;
    while i < allowed.len()
        invariant
            i <= allowed.len(),
            forall|k: int|
                0 <= k < i ==> !((#[trigger] allowed@[k])@ == cred_id@ || allowed@[k]@ == id@
                    || allowed@[k]@ == stored_id@),
        decreases allowed.len() - i,
    {
        if allowed[i] == *cred_id || allowed[i] == *id || allowed[i] == *stored_id {
            return true;
        }
        i = i + 1;
    }
    false
}

/// A signature to verify, and what a login does once it is verified.
#[derive(Debug)]
pub struct SignatureCheck {
    /// Which registration signed.
    pub index: usize,
    /// Uncompressed P-256 public key.
    pub public_key: Vec<u8>,
    /// What was signed: the authenticator data and the digest of the client data.
    pub signed: Vec<u8>,
    pub signature: Vec<u8>,
    pub sign_count: u32,
    pub flags: u8,
}

/// What a signature check is.
pub struct SignatureCheckView {
    pub index: int,
    pub public_key: Seq<u8>,
    pub signed: Seq<u8>,
    pub signature: Seq<u8>,
    pub sign_count: int,
    pub flags: u8,
}

impl View for SignatureCheck {
    type V = SignatureCheckView;

    open spec fn view(&self) -> SignatureCheckView {
        SignatureCheckView {
            index: self.index as int,
            public_key: self.public_key@,
            signed: self.signed@,
            signature: self.signature@,
            sign_count: self.sign_count as int,
            flags: self.flags,
        }
    }
}

/// Where the registration stands that goes by one of two ids, where a login allows it.
pub open spec fn located(
    allowed: Seq<String>,
    registrations: Seq<WebauthnRegistration>,
    cred_id: Seq<char>,
    id: Seq<char>,
) -> Result<int, AppError> {
    match registration_going_by(registrations, cred_id, id) {
        None => Err(AppError::BadRequest(Refusal::CredentialNotPresent)),
        Some(i) => if login_allows(
            allowed,
            cred_id,
            id,
            registrations[i].credential.cred_id@,
        ) {
            Ok(i)
        } else {
            Err(AppError::BadRequest(Refusal::CredentialUnknown))
        },
    }
}

/// Finds the registration that goes by one of two ids, where a login allows it.
pub fn locate_registration(
    allowed: &Vec<String>,
    registrations: &Vec<WebauthnRegistration>,
    cred_id: &String,
    id: &String,
) -> (r: Result<usize, AppError>)
    ensures
        match r {
            Ok(i) => located(allowed@, registrations@, cred_id@, id@) == Ok::<int, AppError>(
                i as int,
            ) && i < registrations@.len(),
            Err(e) => located(allowed@, registrations@, cred_id@, id@) == Err::<int, AppError>(e),
        },
{
    proof {
        lemma_registration_going_by(registrations@, cred_id@, id@);
    }
    match matching_registration(registrations, cred_id, id) {
        None => Err(AppError::BadRequest(Refusal::CredentialNotPresent)),
        Some(i) => if is_allowed(allowed, cred_id, id, &registrations[i].credential.cred_id) {
            Ok(i)
        } else {
            Err(AppError::BadRequest(Refusal::CredentialUnknown))
        },
    }
}

/// The registration that an assertion is about, where the login allows it.
pub open spec fn asserted_registration(
    state: LoginChallengeState,
    registrations: Seq<WebauthnRegistration>,
    assertion: PublicKeyCredentialAssertion,
) -> Result<int, AppError> {
    match b64url_bytes(assertion.raw_id@) {
        None => Err(AppError::BadRequest(Refusal::Base64Invalid)),
        Some(raw_id) => located(
            state.allow_credential_ids@,
            registrations,
            base64url_text(raw_id),
            assertion.id@,
        ),
    }
}

/// The signature to verify once authenticator data, a public key and a signature were read: the
/// user must have been present, and both texts must have been readable.
pub open spec fn completed(
    index: int,
    said: AuthDataView,
    public_key: Option<Seq<u8>>,
    signature: Option<Seq<u8>>,
    signed: Seq<u8>,
) -> Result<SignatureCheckView, AppError> {
    if !has_flag(said.flags, FLAG_UP) {
        Err(AppError::BadRequest(Refusal::PresenceForLogin))
    } else {
        match (public_key, signature) {
            (Some(public_key), Some(signature)) => Ok(
                SignatureCheckView {
                    index,
                    public_key,
                    signed,
                    signature,
                    sign_count: said.sign_count,
                    flags: said.flags,
                },
            ),
            _ => Err(AppError::BadRequest(Refusal::Base64Invalid)),
        }
    }
}

/// The signature to verify once authenticator data, a public key and a signature were read.
pub fn complete_check(
    index: usize,
    parsed: &AuthDataParsed,
    public_key: Option<Vec<u8>>,
    signature: Option<Vec<u8>>,
    signed: Vec<u8>,
) -> (r: Result<SignatureCheck, AppError>)
    ensures
        ({
            let expected = completed(
                index as int,
                parsed@,
                outside::bytes_view(public_key),
                outside::bytes_view(signature),
                signed@,
            );
            match r {
                Ok(check) => expected == Ok::<SignatureCheckView, AppError>(check@),
                Err(e) => expected == Err::<SignatureCheckView, AppError>(e),
            }
        }),
{
    if parsed.flags & FLAG_UP == 0 {
        return Err(AppError::BadRequest(Refusal::PresenceForLogin));
    }
    match (public_key, signature) {
        (Some(public_key), Some(signature)) => Ok(
            SignatureCheck {
                index,
                public_key,
                signed,
                signature,
                sign_count: parsed.sign_count,
                flags: parsed.flags,
            },
        ),
        _ => Err(AppError::BadRequest(Refusal::Base64Invalid)),
    }
}

/// The signature that a login must verify, once the client data of its assertion is accepted.
pub open spec fn signature_to_check(
    rp: RelyingParty,
    registration: WebauthnRegistration,
    index: int,
    response: AuthenticatorAssertionResponse,
) -> Result<SignatureCheckView, AppError> {
    match b64url_bytes(response.authenticator_data@) {
        None => Err(AppError::BadRequest(Refusal::Base64Invalid)),
        Some(auth_data) => match auth_data_said(auth_data, rp.rp_id@) {
            Err(e) => Err(e),
            Ok(said) => completed(
                index,
                said,
                b64url_bytes(registration.credential.public_key@),
                b64url_bytes(response.signature@),
                auth_data + outside::sha256_of(b64url_bytes(response.client_data_json@)->0),
            ),
        },
    }
}

/// The signature that a login must verify for this assertion.
pub open spec fn login_check(
    rp: RelyingParty,
    state: LoginChallengeState,
    registrations: Seq<WebauthnRegistration>,
    assertion: Option<PublicKeyCredentialAssertion>,
    client_data: Option<ClientData>,
) -> Result<SignatureCheckView, AppError> {
    match assertion {
        None => Err(AppError::BadRequest(Refusal::AssertionInvalid)),
        Some(a) => if a.type_@ != "public-key"@ {
            Err(AppError::BadRequest(Refusal::CredentialType))
        } else {
            match asserted_registration(state, registrations, a) {
                Err(e) => Err(e),
                Ok(i) => match client_data_text_fault(
                    a.response.client_data_json@,
                    client_data,
                    "webauthn.get"@,
                    state.challenge@,
                    rp.origin,
                ) {
                    Some(why) => Err(AppError::BadRequest(why)),
                    None => signature_to_check(rp, registrations[i], i, a.response),
                },
            }
        },
    }
}

/// What was signed: the authenticator data and the digest of the client data.
pub fn signed_bytes(auth_data: &Vec<u8>, client_data_digest: &Vec<u8>) -> (r: Vec<u8>)
    ensures
        r@ == auth_data@ + client_data_digest@,
{
    let mut signed: Vec<u8> = Vec::new();
    signed.extend_from_slice(auth_data.as_slice());
    signed.extend_from_slice(client_data_digest.as_slice());
    assert(signed@ =~= auth_data@ + client_data_digest@);
    signed
}

/// Checks all of an assertion but its signature, and returns the signature to verify.
///
/// `assertion` is what the caller read of the client's JSON, and `client_data` what it read as JSON
/// from `client_data_bytes` of the assertion, if it could.
pub fn check_assertion(
    rp: &RelyingParty,
    state: &LoginChallengeState,
    registrations: &Vec<WebauthnRegistration>,
    assertion: &Option<PublicKeyCredentialAssertion>,
    client_data: Option<ClientData>,
) -> (r: Result<SignatureCheck, AppError>)
    ensures
        match r {
            Ok(check) => login_check(*rp, *state, registrations@, *assertion, client_data) == Ok::<
                SignatureCheckView,
                AppError,
            >(check@),
            Err(e) => login_check(*rp, *state, registrations@, *assertion, client_data) == Err::<
                SignatureCheckView,
                AppError,
            >(e),
        },
        r matches Ok(check) ==> check.index < registrations@.len(),
{
    let assertion = match assertion {
        Some(a) => a,
        None => return Err(AppError::BadRequest(Refusal::AssertionInvalid)),
    };
    if !text::same_text(assertion.type_.as_str(), "public-key") {
        return Err(AppError::BadRequest(Refusal::CredentialType));
    }
    let raw_id = match b64url_decode(assertion.raw_id.as_str()) {
        Ok(raw_id) => raw_id,
        Err(e) => return Err(e),
    };
    let cred_id = b64url_encode(raw_id.as_slice());
    let index = match locate_registration(
        &state.allow_credential_ids,
        registrations,
        &cred_id,
        &assertion.id,
    ) {
        Ok(index) => index,
        Err(e) => return Err(e),
    };
    let (data, client_raw) = match parse_client_data(
        assertion.response.client_data_json.as_str(),
        client_data,
    ) {
        Ok(p) => p,
        Err(e) => return Err(e),
    };
    match verify_client_data(&data, "webauthn.get", state.challenge.as_str(), &rp.origin) {
        Ok(_) => {},
        Err(e) => return Err(e),
    }
    let auth_data = match b64url_decode(assertion.response.authenticator_data.as_str()) {
        Ok(auth_data) => auth_data,
        Err(e) => return Err(e),
    };
    let parsed = match parse_authenticator_data(auth_data.as_slice(), rp) {
        Ok(parsed) => parsed,
        Err(e) => return Err(e),
    };
    let digest = outside::sha256(client_raw.as_slice());
    complete_check(
        index,
        &parsed,
        b64url_decode(registrations[index].credential.public_key.as_str()).ok(),
        b64url_decode(assertion.response.signature.as_str()).ok(),
        signed_bytes(&auth_data, &digest),
    )
}

/// Whether a signature counter shows that an authenticator was cloned: both counters are in use and
/// the new one is no greater than the old.
pub open spec fn counter_stuck(stored: int, new: int) -> bool {
    stored > 0 && new > 0 && new <= stored
}

/// A registration after a login with this counter and these flags.
pub open spec fn after_login(
    registration: WebauthnRegistration,
    sign_count: u32,
    flags: u8,
) -> WebauthnRegistration {
    WebauthnRegistration {
        credential: StoredCredential {
            sign_count,
            backup_eligible: registration.credential.backup_eligible || has_flag(flags, FLAG_BE),
            backup_state: has_flag(flags, FLAG_BS),
            ..registration.credential
        },
        ..registration
    }
}

/// How a login ends once its signature was judged.
pub open spec fn login_end(
    registrations: Seq<WebauthnRegistration>,
    check: SignatureCheck,
    verdict: Result<(), AppError>,
) -> Result<usize, AppError> {
    match verdict {
        Err(e) => Err(e),
        Ok(_) => if check.index >= registrations.len() {
            Err(AppError::BadRequest(Refusal::CredentialNotPresent))
        } else if counter_stuck(
            registrations[check.index as int].credential.sign_count as int,
            check.sign_count as int,
        ) {
            Err(AppError::BadRequest(Refusal::CounterMismatch))
        } else {
            Ok(check.index)
        },
    }
}

/// Finishes a login whose signature was judged: checks the signature counter, records what the
/// authenticator said, and returns which registration was used.
///
/// A login that fails changes nothing.
pub fn finish_authentication(
    registrations: &mut Vec<WebauthnRegistration>,
    check: &SignatureCheck,
    verdict: Result<(), AppError>,
) -> (r: Result<usize, AppError>)
    ensures
        r == login_end(old(registrations)@, *check, verdict),
        r is Ok ==> final(registrations)@ == old(registrations)@.update(
            check.index as int,
            after_login(old(registrations)@[check.index as int], check.sign_count, check.flags),
        ),
        r is Err ==> final(registrations)@ == old(registrations)@,
{
    match verdict {
        Ok(_) => {},
        Err(e) => return Err(e),
    }
    let index = check.index;
    if index >= registrations.len() {
        return Err(AppError::BadRequest(Refusal::CredentialNotPresent));
    }
    let stored_count = registrations[index].credential.sign_count;
    if stored_count > 0 && check.sign_count > 0 && check.sign_count <= stored_count {
        return Err(AppError::BadRequest(Refusal::CounterMismatch));
    }
    registrations[index].credential.sign_count = check.sign_count;
    if check.flags & FLAG_BE != 0 {
        registrations[index].credential.backup_eligible = true;
    }
    registrations[index].credential.backup_state = check.flags & FLAG_BS != 0;
    assert(registrations@ =~= old(registrations)@.update(
        index as int,
        after_login(old(registrations)@[index as int], check.sign_count, check.flags),
    ));
    Ok(index)
}

impl WebauthnRegistration {
    /// What a client is told of a registration.
    pub open spec fn client_view(self) -> JsonView {
        JsonView::Object(
            json::no_fields()
                .push(("id"@, JsonView::Int(self.id as int)))
                .push(("name"@, JsonView::Text(self.name@)))
                .push(("migrated"@, JsonView::Bool(self.migrated))),
        )
    }

    /// What a client is told of a registration.
    pub fn to_client_json(&self) -> (r: Json)
        ensures
            r@ == self.client_view(),
    {
        Fields::new().with("id", Json::Int(self.id as i64)).with(
            "name",
            json::text(self.name.as_str()),
        ).with("migrated", Json::Bool(self.migrated)).object()
    }
}

// ---------------------------------------------------------------------------------------------
// Laws
// ---------------------------------------------------------------------------------------------

/// White space around base64url does not count, and neither does padding: without white space, what is
/// read is what base64url without padding reads, and otherwise what it reads with padding.
pub proof fn law_base64url_is_read_with_or_without_padding(s: Seq<char>)
    ensures
        b64url_bytes(s) == b64url_bytes(text::trimmed(s)),
        text::trimmed(s) == s && outside::base64url_decoded(s) is Some ==> b64url_bytes(s)
            == outside::base64url_decoded(s),
        text::trimmed(s) == s && outside::base64url_decoded(s) is None ==> b64url_bytes(s)
            == outside::base64url_padded_decoded(s),
{
    text::law_trimmed_text_stays(s);
}

/// What is wrong with client data is told in order: that it is of another ceremony, that it answers
/// another challenge, and that it comes from another origin, both of which are then named.
pub proof fn law_client_data_faults_are_told_in_order(
    data: ClientData,
    expected_type: Seq<char>,
    challenge: Seq<char>,
    expected_origin: String,
)
    ensures
        ({
            let fault = client_data_fault(
                data,
                expected_type,
                same_challenge(challenge, data.challenge@),
                expected_origin,
            );
            let answered = b64url_bytes(challenge) is Some && b64url_bytes(data.challenge@)
                == b64url_bytes(challenge);
            &&& data.type_@ != expected_type ==> fault == Some(Refusal::ClientDataType)
            &&& data.type_@ == expected_type && !answered ==> fault == Some(
                Refusal::ChallengeMismatch,
            )
            &&& data.type_@ == expected_type && answered && data.origin@ != expected_origin@
                ==> fault == Some(
                Refusal::OriginMismatch { got: data.origin, expected: expected_origin },
            )
        }),
{
}

/// Client data that names the ceremony, echoes its challenge and comes from the origin of the
/// relying party has no fault, and no other client data is without one.
pub proof fn law_client_data_must_echo(
    data: ClientData,
    expected_type: Seq<char>,
    challenge: Seq<char>,
    expected_origin: String,
)
    requires
        b64url_bytes(challenge) is Some,
    ensures
        client_data_fault(
            data,
            expected_type,
            same_challenge(challenge, data.challenge@),
            expected_origin,
        ) is None <==> (data.type_@ == expected_type && b64url_bytes(data.challenge@)
            == b64url_bytes(challenge) && data.origin@ == expected_origin@),
{
}

/// A login that was started for registrations finds, and allows, the key whose credential id the
/// client answers with.
pub proof fn law_started_login_knows_its_keys(
    rp: RelyingParty,
    registrations: Seq<WebauthnRegistration>,
    challenge: Seq<u8>,
    options: JsonView,
    state: LoginChallengeState,
    assertion: PublicKeyCredentialAssertion,
    raw_id: Seq<u8>,
    k: int,
)
    requires
        starts_login(rp, registrations, challenge, options, state),
        b64url_bytes(assertion.raw_id@) == Some(raw_id),
        0 <= k < registrations.len(),
        registrations[k].credential.cred_id@ == base64url_text(raw_id),
    ensures
        asserted_registration(state, registrations, assertion) matches Ok(i) && 0 <= i <= k
            && goes_by(registrations[i], base64url_text(raw_id), assertion.id@),
{
    lemma_registration_going_by(registrations, base64url_text(raw_id), assertion.id@);
    assert(goes_by(registrations[k], base64url_text(raw_id), assertion.id@));
    let i = registration_going_by(registrations, base64url_text(raw_id), assertion.id@)->0;
    assert(state.allow_credential_ids@[i] == registrations[i].credential.cred_id);
}

/// A credential that a registration stored goes by the id that the client will answer with.
pub proof fn law_stored_credential_goes_by_its_id(
    stored: StoredCredential,
    accepted: CredentialView,
    registration: WebauthnRegistration,
    id: Seq<char>,
)
    requires
        stores(stored, accepted),
        registration.credential == stored,
    ensures
        goes_by(registration, base64url_text(accepted.cred_id), id),
{
}

/// A key whose signature counter is in use cannot log in twice with one signature: the login is
/// recorded, and the second attempt is refused.
pub proof fn law_replayed_login_is_refused(
    registrations: Seq<WebauthnRegistration>,
    check: SignatureCheck,
)
    requires
        login_end(registrations, check, Ok(())) is Ok,
        check.sign_count > 0,
    ensures
        login_end(
            registrations.update(
                check.index as int,
                after_login(registrations[check.index as int], check.sign_count, check.flags),
            ),
            check,
            Ok(()),
        ) == Err::<usize, AppError>(AppError::BadRequest(Refusal::CounterMismatch)),
{
}

/// While a key counts its signatures, each login it makes raises the stored counter.
pub proof fn law_counter_grows(registrations: Seq<WebauthnRegistration>, check: SignatureCheck)
    requires
        login_end(registrations, check, Ok(())) is Ok,
        registrations[check.index as int].credential.sign_count > 0,
        check.sign_count > 0,
    ensures
        after_login(
            registrations[check.index as int],
            check.sign_count,
            check.flags,
        ).credential.sign_count > registrations[check.index as int].credential.sign_count,
{
}

/// A login does not touch who a key is: its slot, its name, its credential id and its public key
/// stay, and a key that was once eligible for backup stays eligible.
pub proof fn law_login_keeps_the_key(
    registration: WebauthnRegistration,
    sign_count: u32,
    flags: u8,
)
    ensures
        after_login(registration, sign_count, flags).id == registration.id,
        after_login(registration, sign_count, flags).name == registration.name,
        after_login(registration, sign_count, flags).migrated == registration.migrated,
        after_login(registration, sign_count, flags).credential.cred_id
            == registration.credential.cred_id,
        after_login(registration, sign_count, flags).credential.public_key
            == registration.credential.public_key,
        registration.credential.backup_eligible ==> after_login(
            registration,
            sign_count,
            flags,
        ).credential.backup_eligible,
{
}

/// A login passes its checks only where the user was present and the client data names the login,
/// echoes its challenge and comes from the origin of the relying party.
pub proof fn law_login_needs_presence_and_echo(
    rp: RelyingParty,
    state: LoginChallengeState,
    registrations: Seq<WebauthnRegistration>,
    assertion: Option<PublicKeyCredentialAssertion>,
    client_data: Option<ClientData>,
)
    requires
        login_check(rp, state, registrations, assertion, client_data) is Ok,
    ensures
        has_flag(login_check(rp, state, registrations, assertion, client_data)->Ok_0.flags, FLAG_UP),
        client_data matches Some(data) && same_challenge(state.challenge@, data.challenge@)
            && data.origin@ == rp.origin@ && data.type_@ == "webauthn.get"@,
{
}

/// An assertion passes its checks exactly where it is one of a public key; the bytes of its raw id
/// are, in base64url, the id of a registered credential, or its id is one, and that credential is one
/// that the login allows; its client data names the login, echoes its challenge and comes from the
/// origin of the relying party; its authenticator data is for the relying party, with the user
/// present; and its signature and the registered public key can be read. What is then to be verified
/// is that signature, under that key, over the authenticator data and the digest of the client data.
pub proof fn law_assertion_passes_exactly_when_honest(
    rp: RelyingParty,
    state: LoginChallengeState,
    registrations: Seq<WebauthnRegistration>,
    a: PublicKeyCredentialAssertion,
    data: ClientData,
    i: int,
)
    requires
        0 <= i < registrations.len(),
        b64url_bytes(a.raw_id@) matches Some(raw) && (registrations[i].credential.cred_id@
            == outside::base64url_encoded(raw) || registrations[i].credential.cred_id@ == a.id@),
        forall|k: int|
            0 <= k < i ==> (#[trigger] registrations[k]).credential.cred_id@
                != outside::base64url_encoded(b64url_bytes(a.raw_id@)->0)
                && registrations[k].credential.cred_id@ != a.id@,
        exists|j: int|
            0 <= j < state.allow_credential_ids@.len() && ({
                let allowed = (#[trigger] state.allow_credential_ids@[j])@;
                allowed == outside::base64url_encoded(b64url_bytes(a.raw_id@)->0) || allowed == a.id@
                    || allowed == registrations[i].credential.cred_id@
            }),
    ensures
        ({
            let checked = login_check(rp, state, registrations, Some(a), Some(data));
            let auth_data = b64url_bytes(a.response.authenticator_data@);
            let client_raw = b64url_bytes(a.response.client_data_json@);
            &&& checked is Ok <==> {
                &&& a.type_@ == "public-key"@
                &&& client_raw is Some
                &&& data.type_@ == "webauthn.get"@
                &&& b64url_bytes(state.challenge@) is Some
                &&& b64url_bytes(data.challenge@) == b64url_bytes(state.challenge@)
                &&& data.origin@ == rp.origin@
                &&& auth_data is Some
                &&& auth_data_said(auth_data->0, rp.rp_id@) is Ok
                &&& (auth_data->0)[32] & 0x01 != 0
                &&& b64url_bytes(a.response.signature@) is Some
                &&& b64url_bytes(registrations[i].credential.public_key@) is Some
            }
            &&& checked matches Ok(check) ==> {
                &&& check.index == i
                &&& Some(check.public_key) == b64url_bytes(registrations[i].credential.public_key@)
                &&& check.signed == auth_data->0 + outside::sha256_of(client_raw->0)
                &&& Some(check.signature) == b64url_bytes(a.response.signature@)
                &&& check.flags == (auth_data->0)[32]
                &&& check.sign_count == (((auth_data->0)[33] * 256 + (auth_data->0)[34]) * 256 + (
                auth_data->0)[35]) * 256 + (auth_data->0)[36]
            }
        }),
{
    let cred_id = base64url_text(b64url_bytes(a.raw_id@)->0);
    lemma_registration_going_by(registrations, cred_id, a.id@);
    assert(goes_by(registrations[i], cred_id, a.id@));
    assert(login_allows(
        state.allow_credential_ids@,
        cred_id,
        a.id@,
        registrations[i].credential.cred_id@,
    ));
    assert(located(state.allow_credential_ids@, registrations, cred_id, a.id@) == Ok::<
        int,
        AppError,
    >(i)) by {
        let found = registration_going_by(registrations, cred_id, a.id@);
        if found != Some(i) {
            assert(found is Some);
            let f = found->0;
            if f < i {
                assert(goes_by(registrations[f], cred_id, a.id@));
            } else {
                assert(!goes_by(registrations[i], cred_id, a.id@));
            }
        }
    }
    if b64url_bytes(a.response.authenticator_data@) is Some {
        law_auth_data_is_read_by_its_layout(
            b64url_bytes(a.response.authenticator_data@)->0,
            rp.rp_id@,
        );
    }
}

/// What is wrong with an assertion of a registered credential that the login allows is told in order: its
/// client data, its authenticator data, that the user was not present, and what cannot be read.
pub proof fn law_assertion_faults_are_told_in_order(
    rp: RelyingParty,
    state: LoginChallengeState,
    registrations: Seq<WebauthnRegistration>,
    a: PublicKeyCredentialAssertion,
    client_data: Option<ClientData>,
    i: int,
)
    requires
        a.type_@ == "public-key"@,
        asserted_registration(state, registrations, a) == Ok::<int, AppError>(i),
    ensures
        ({
            let checked = login_check(rp, state, registrations, Some(a), client_data);
            let fault = |why: Refusal|
                checked == Err::<SignatureCheckView, AppError>(AppError::BadRequest(why));
            let auth_data = b64url_bytes(a.response.authenticator_data@);
            let raw = b64url_bytes(a.response.client_data_json@);
            let echoed = raw is Some && client_data is Some && client_data_fault(
                client_data->0,
                "webauthn.get"@,
                same_challenge(state.challenge@, (client_data->0).challenge@),
                rp.origin,
            ) is None;
            &&& raw is None ==> fault(Refusal::Base64Invalid)
            &&& raw is Some && client_data is None ==> fault(Refusal::ClientDataInvalid)
            &&& raw is Some && client_data is Some && !echoed ==> fault(
                client_data_fault(
                    client_data->0,
                    "webauthn.get"@,
                    same_challenge(state.challenge@, (client_data->0).challenge@),
                    rp.origin,
                )->0,
            )
            &&& echoed && auth_data is None ==> fault(Refusal::Base64Invalid)
            &&& echoed && auth_data is Some && auth_data_said(auth_data->0, rp.rp_id@) is Err
                ==> checked == Err::<SignatureCheckView, AppError>(
                auth_data_said(auth_data->0, rp.rp_id@)->Err_0,
            )
            &&& echoed && auth_data is Some && auth_data_said(auth_data->0, rp.rp_id@) is Ok && (
            auth_data->0)[32] & 0x01 == 0 ==> fault(Refusal::PresenceForLogin)
            &&& echoed && auth_data is Some && auth_data_said(auth_data->0, rp.rp_id@) is Ok && (
            auth_data->0)[32] & 0x01 != 0 && checked is Err ==> fault(Refusal::Base64Invalid)
        }),
{
    if b64url_bytes(a.response.authenticator_data@) is Some {
        law_auth_data_is_read_by_its_layout(
            b64url_bytes(a.response.authenticator_data@)->0,
            rp.rp_id@,
        );
    }
}

/// What is wrong with the answer to a registration is told in order: its kind, its client data, its
/// attestation object and the authenticator data in it, that the user was not present, that nothing is
/// attested, and that the client names another credential.
pub proof fn law_registration_faults_are_told_in_order(
    rp: RelyingParty,
    state: RegisterChallengeState,
    credential: RegisterPublicKeyCredential,
    client_data: Option<ClientData>,
)
    ensures
        ({
            let done = registered_credential(rp, state, credential, client_data);
            let fault = |why: Refusal|
                done == Err::<CredentialView, AppError>(AppError::BadRequest(why));
            let typed = credential.type_@ == "public-key"@;
            let raw = b64url_bytes(credential.response.client_data_json@);
            let wrong = client_data_fault(
                client_data->0,
                "webauthn.create"@,
                same_challenge(state.challenge@, (client_data->0).challenge@),
                rp.origin,
            );
            let echoed = typed && raw is Some && client_data is Some && wrong is None;
            let object = b64url_bytes(credential.response.attestation_object@);
            let document = outside::cbor_decoded(object->0);
            let read = echoed && object is Some && document is Some && (document->0) is Entries;
            let item = cbor::entry_under(
                (document->0)->Entries_0,
                CborItemView::Text("authData"@),
            );
            let found = read && item is Some && (item->0) is Bytes;
            let said = auth_data_said((item->0)->Bytes_0, rp.rp_id@);
            &&& !typed ==> fault(Refusal::CredentialType)
            &&& typed && raw is None ==> fault(Refusal::Base64Invalid)
            &&& typed && raw is Some && client_data is None ==> fault(Refusal::ClientDataInvalid)
            &&& typed && raw is Some && client_data is Some && wrong is Some ==> fault(wrong->0)
            &&& echoed && object is None ==> fault(Refusal::Base64Invalid)
            &&& echoed && object is Some && document is None ==> fault(Refusal::AttestationInvalid)
            &&& echoed && object is Some && document is Some && !((document->0) is Entries)
                ==> fault(Refusal::AttestationNotMap)
            &&& read && item is None ==> fault(Refusal::AuthDataMissing)
            &&& read && item is Some && !((item->0) is Bytes) ==> fault(Refusal::CborNotBytes)
            &&& found && said is Err ==> done == Err::<CredentialView, AppError>(said->Err_0)
            &&& found && said is Ok && said->Ok_0.flags & 0x01 == 0 ==> fault(
                Refusal::PresenceForRegistration,
            )
            &&& found && said is Ok && said->Ok_0.flags & 0x01 != 0 && said->Ok_0.cred_id is None
                ==> fault(Refusal::AttestedCredentialMissing)
            &&& found && said is Ok && said->Ok_0.flags & 0x01 != 0 && said->Ok_0.cred_id is Some
                && b64url_bytes(credential.raw_id@) is None ==> fault(Refusal::Base64Invalid)
            &&& found && said is Ok && said->Ok_0.flags & 0x01 != 0 && said->Ok_0.cred_id is Some
                && b64url_bytes(credential.raw_id@) is Some && b64url_bytes(credential.raw_id@)
                != said->Ok_0.cred_id ==> fault(Refusal::CredentialIdMismatch)
        }),
{
}

/// What is no assertion of a public key, and what names no credential that can be read, is refused.
pub proof fn law_assertion_must_be_one(
    rp: RelyingParty,
    state: LoginChallengeState,
    registrations: Seq<WebauthnRegistration>,
    assertion: Option<PublicKeyCredentialAssertion>,
    client_data: Option<ClientData>,
)
    ensures
        ({
            let checked = login_check(rp, state, registrations, assertion, client_data);
            let fault = |why: Refusal|
                checked == Err::<SignatureCheckView, AppError>(AppError::BadRequest(why));
            &&& assertion is None ==> fault(Refusal::AssertionInvalid)
            &&& assertion matches Some(a) ==> {
                &&& a.type_@ != "public-key"@ ==> fault(Refusal::CredentialType)
                &&& a.type_@ == "public-key"@ && b64url_bytes(a.raw_id@) is None ==> fault(
                    Refusal::Base64Invalid,
                )
            }
        }),
{
}

/// An assertion of a credential that is not registered is refused, and so is one of a registered
/// credential that the login does not allow, by whichever of its ids.
pub proof fn law_unknown_credential_is_refused(
    rp: RelyingParty,
    state: LoginChallengeState,
    registrations: Seq<WebauthnRegistration>,
    a: PublicKeyCredentialAssertion,
    client_data: Option<ClientData>,
    raw: Seq<u8>,
)
    requires
        a.type_@ == "public-key"@,
        b64url_bytes(a.raw_id@) == Some(raw),
    ensures
        (forall|k: int|
            0 <= k < registrations.len() ==> (#[trigger] registrations[k]).credential.cred_id@
                != outside::base64url_encoded(raw) && registrations[k].credential.cred_id@ != a.id@)
            ==> login_check(rp, state, registrations, Some(a), client_data) == Err::<
            SignatureCheckView,
            AppError,
        >(AppError::BadRequest(Refusal::CredentialNotPresent)),
        state.allow_credential_ids@.len() == 0 && (exists|k: int|
            0 <= k < registrations.len() && ((#[trigger] registrations[k]).credential.cred_id@
                == outside::base64url_encoded(raw) || registrations[k].credential.cred_id@ == a.id@))
            ==> login_check(rp, state, registrations, Some(a), client_data) == Err::<
            SignatureCheckView,
            AppError,
        >(AppError::BadRequest(Refusal::CredentialUnknown)),
        login_check(rp, state, registrations, Some(a), client_data) matches Ok(check) ==> exists|
            j: int,
        |
            0 <= j < state.allow_credential_ids@.len() && ({
                let allowed = (#[trigger] state.allow_credential_ids@[j])@;
                allowed == outside::base64url_encoded(raw) || allowed == a.id@ || allowed
                    == registrations[check.index].credential.cred_id@
            }),
{
    lemma_registration_going_by(registrations, base64url_text(raw), a.id@);
    if let Some(i) = registration_going_by(registrations, base64url_text(raw), a.id@) {
        assert(goes_by(registrations[i], base64url_text(raw), a.id@));
    } else {
        assert(forall|k: int|
            0 <= k < registrations.len() ==> !goes_by(
                #[trigger] registrations[k],
                base64url_text(raw),
                a.id@,
            ));
    }
}

/// A registration succeeds exactly where its answer is one of a public key; its client data names the
/// registration, echoes its challenge and comes from the origin of the relying party; and the
/// authenticator data in its attestation object is for the relying party, with the user present, and
/// attests a key under the credential id that the client names. What is stored is what was attested.
pub proof fn law_registration_succeeds_exactly_when_honest(
    rp: RelyingParty,
    state: RegisterChallengeState,
    credential: RegisterPublicKeyCredential,
    data: ClientData,
    object: Seq<u8>,
    entries: Seq<(CborItemView, CborItemView)>,
    auth_data: Seq<u8>,
)
    requires
        b64url_bytes(credential.response.attestation_object@) == Some(object),
        outside::cbor_decoded(object) == Some(CborView::Entries(entries)),
        cbor::entry_under(entries, CborItemView::Text("authData"@)) == Some(
            CborItemView::Bytes(auth_data),
        ),
    ensures
        ({
            let done = registered_credential(rp, state, credential, Some(data));
            let said = auth_data_said(auth_data, rp.rp_id@);
            &&& done is Ok <==> {
                &&& credential.type_@ == "public-key"@
                &&& b64url_bytes(credential.response.client_data_json@) is Some
                &&& data.type_@ == "webauthn.create"@
                &&& b64url_bytes(state.challenge@) is Some
                &&& b64url_bytes(data.challenge@) == b64url_bytes(state.challenge@)
                &&& data.origin@ == rp.origin@
                &&& said is Ok
                &&& auth_data[32] & 0x01 != 0
                &&& auth_data[32] & 0x40 != 0
                &&& b64url_bytes(credential.raw_id@) == said->Ok_0.cred_id
            }
            &&& done matches Ok(kept) ==> {
                &&& Some(kept.cred_id) == said->Ok_0.cred_id
                &&& Some(kept.public_key) == said->Ok_0.public_key
                &&& kept.sign_count == said->Ok_0.sign_count
                &&& kept.backup_eligible == (auth_data[32] & 0x08 != 0)
                &&& kept.backup_state == (auth_data[32] & 0x10 != 0)
            }
        }),
{
    law_auth_data_is_read_by_its_layout(auth_data, rp.rp_id@);
    if let Ok(view) = auth_data_said(auth_data, rp.rp_id@) {
        if view.public_key is Some {
            let end = 55 + cred_id_len(auth_data);
            law_accepted_key_is_point(outside::cbor_decoded(auth_data.skip(end)));
        }
    }
}

/// A registration succeeds only where the client data names the registration, echoes its challenge
/// and comes from the origin of the relying party, and the key it stores is an uncompressed point.
pub proof fn law_registration_needs_echo_and_point(
    rp: RelyingParty,
    state: RegisterChallengeState,
    credential: RegisterPublicKeyCredential,
    client_data: Option<ClientData>,
)
    requires
        registered_credential(rp, state, credential, client_data) is Ok,
    ensures
        client_data matches Some(data) && same_challenge(state.challenge@, data.challenge@)
            && data.origin@ == rp.origin@ && data.type_@ == "webauthn.create"@,
        is_uncompressed_p256(
            registered_credential(rp, state, credential, client_data)->Ok_0.public_key,
        ),
        b64url_bytes(credential.raw_id@) == Some(
            registered_credential(rp, state, credential, client_data)->Ok_0.cred_id,
        ),
{
}

/// Once its signature was found to be good, a login with a registered key is refused exactly where
/// both signature counters are in use and the new one is no greater than the stored one.
pub proof fn law_good_login_is_refused_only_for_its_counter(
    registrations: Seq<WebauthnRegistration>,
    check: SignatureCheck,
)
    requires
        check.index < registrations.len(),
    ensures
        ({
            let stored = registrations[check.index as int].credential.sign_count;
            let new = check.sign_count;
            let end = login_end(registrations, check, Ok(()));
            &&& stored > 0 && new > 0 && new <= stored ==> end == Err::<usize, AppError>(
                AppError::BadRequest(Refusal::CounterMismatch),
            )
            &&& new > stored || stored == 0 || new == 0 ==> end == Ok::<usize, AppError>(
                check.index,
            )
        }),
{
}

/// A login whose signature was not found to be good ends with what was found wrong, whatever else
/// holds of it.
pub proof fn law_bad_signature_is_refused(
    registrations: Seq<WebauthnRegistration>,
    check: SignatureCheck,
    e: AppError,
)
    ensures
        login_end(registrations, check, Err(e)) == Err::<usize, AppError>(e),
{
}

/// A login records what the authenticator said: its counter, and, by the bits of the flags, that the
/// key may be backed up, which is never taken back, and whether it is.
pub proof fn law_login_records_what_was_said(
    registration: WebauthnRegistration,
    sign_count: u32,
    flags: u8,
)
    ensures
        ({
            let after = after_login(registration, sign_count, flags).credential;
            &&& after.sign_count == sign_count
            &&& after.backup_eligible == (registration.credential.backup_eligible || flags & 0x08
                != 0)
            &&& after.backup_state == (flags & 0x10 != 0)
        }),
{
}

/// What an honest client sends to log in: the id of a registered credential, client data that echoes
/// the challenge, authenticator data of this relying party under which the user was present, and a
/// signature.
pub open spec fn honest_assertion(
    rp: RelyingParty,
    challenge: Seq<u8>,
    cred_id: Seq<u8>,
    assertion: PublicKeyCredentialAssertion,
    client_data: ClientData,
    auth_data: Seq<u8>,
) -> bool {
    &&& assertion.type_@ == "public-key"@
    &&& b64url_bytes(assertion.raw_id@) == Some(cred_id)
    &&& b64url_bytes(assertion.response.client_data_json@) is Some
    &&& client_data.type_@ == "webauthn.get"@
    &&& b64url_bytes(client_data.challenge@) == Some(challenge)
    &&& client_data.origin@ == rp.origin@
    &&& b64url_bytes(assertion.response.authenticator_data@) == Some(auth_data)
    &&& auth_data.len() >= 37
    &&& auth_data.take(32) == rp_hash(rp.rp_id@)
    &&& has_flag(auth_data[32], FLAG_UP)
    &&& !has_flag(auth_data[32], FLAG_AT)
    &&& b64url_bytes(assertion.response.signature@) is Some
}

/// Whoever starts a login and answers it honestly gets as far as their signature: it is verified
/// under a key that goes by the credential they named, over the authenticator data and the digest of
/// the client data.
pub proof fn law_honest_login_reaches_its_signature(
    rp: RelyingParty,
    registrations: Seq<WebauthnRegistration>,
    challenge: Seq<u8>,
    options: JsonView,
    state: LoginChallengeState,
    cred_id: Seq<u8>,
    assertion: PublicKeyCredentialAssertion,
    client_data: ClientData,
    auth_data: Seq<u8>,
    k: int,
)
    requires
        starts_login(rp, registrations, challenge, options, state),
        0 <= k < registrations.len(),
        registrations[k].credential.cred_id@ == base64url_text(cred_id),
        forall|i: int|
            0 <= i < registrations.len() ==> b64url_bytes(
                (#[trigger] registrations[i]).credential.public_key@,
            ) is Some,
        honest_assertion(rp, challenge, cred_id, assertion, client_data, auth_data),
    ensures
        login_check(rp, state, registrations, Some(assertion), Some(client_data)) matches Ok(check)
            && 0 <= check.index <= k && goes_by(
            registrations[check.index],
            base64url_text(cred_id),
            assertion.id@,
        ) && Some(check.public_key) == b64url_bytes(
            registrations[check.index].credential.public_key@,
        ) && check.signed == auth_data + outside::sha256_of(
            b64url_bytes(assertion.response.client_data_json@)->0,
        ) && Some(check.signature) == b64url_bytes(assertion.response.signature@)
            && check.sign_count == counter_of(auth_data) && check.flags == auth_data[32],
{
    law_started_login_knows_its_keys(
        rp,
        registrations,
        challenge,
        options,
        state,
        assertion,
        cred_id,
        k,
    );
    let i = asserted_registration(state, registrations, assertion)->Ok_0;
    assert(b64url_bytes(registrations[i].credential.public_key@) is Some);
}

/// What an honest client sends to register a key: client data that echoes the challenge, and an
/// attestation object with authenticator data of this relying party, under which the user was
/// present, that attests a P-256 key.
pub open spec fn honest_registration(
    rp: RelyingParty,
    challenge: Seq<u8>,
    credential: RegisterPublicKeyCredential,
    client_data: ClientData,
    auth_data: Seq<u8>,
) -> bool {
    &&& credential.type_@ == "public-key"@
    &&& b64url_bytes(credential.response.client_data_json@) is Some
    &&& client_data.type_@ == "webauthn.create"@
    &&& b64url_bytes(client_data.challenge@) == Some(challenge)
    &&& client_data.origin@ == rp.origin@
    &&& b64url_bytes(credential.response.attestation_object@) matches Some(object)
    &&& attested_auth_data(outside::cbor_decoded(object)) == Ok::<Seq<u8>, AppError>(auth_data)
    &&& auth_data.len() >= 55 + cred_id_len(auth_data)
    &&& auth_data.take(32) == rp_hash(rp.rp_id@)
    &&& has_flag(auth_data[32], FLAG_UP)
    &&& has_flag(auth_data[32], FLAG_AT)
    &&& ec2_key(outside::cbor_decoded(auth_data.skip(55 + cred_id_len(auth_data)))) is Ok
    &&& b64url_bytes(credential.raw_id@) == Some(
        auth_data.subrange(55, 55 + cred_id_len(auth_data)),
    )
}

/// Whoever starts a registration and answers it honestly has their credential accepted: it is the
/// one that was attested, with its key, its counter and its flags.
pub proof fn law_honest_registration_is_accepted(
    rp: RelyingParty,
    handle: Seq<u8>,
    user_email: Seq<char>,
    display_name: Seq<char>,
    exclude_cred_ids: Seq<String>,
    challenge: Seq<u8>,
    options: JsonView,
    state: RegisterChallengeState,
    credential: RegisterPublicKeyCredential,
    client_data: ClientData,
    auth_data: Seq<u8>,
)
    requires
        starts_registration(
            rp,
            handle,
            user_email,
            display_name,
            exclude_cred_ids,
            challenge,
            options,
            state,
        ),
        honest_registration(rp, challenge, credential, client_data, auth_data),
    ensures
        registered_credential(rp, state, credential, Some(client_data)) == Ok::<
            CredentialView,
            AppError,
        >(
            CredentialView {
                cred_id: auth_data.subrange(55, 55 + cred_id_len(auth_data)),
                public_key: ec2_key(
                    outside::cbor_decoded(auth_data.skip(55 + cred_id_len(auth_data))),
                )->Ok_0,
                sign_count: counter_of(auth_data),
                backup_eligible: has_flag(auth_data[32], FLAG_BE),
                backup_state: has_flag(auth_data[32], FLAG_BS),
            },
        ),
{
}

// ---------------------------------------------------------------------------------------------
// Copies
// ---------------------------------------------------------------------------------------------

impl Clone for RelyingParty {
    fn clone(&self) -> (r: Self)
        ensures
            r == *self,
    {
        RelyingParty {
            rp_id: self.rp_id.clone(),
            origin: self.origin.clone(),
            name: self.name.clone(),
        }
    }
}

impl Clone for StoredCredential {
    fn clone(&self) -> (r: Self)
        ensures
            r == *self,
    {
        StoredCredential {
            cred_id: self.cred_id.clone(),
            public_key: self.public_key.clone(),
            sign_count: self.sign_count,
            backup_eligible: self.backup_eligible,
            backup_state: self.backup_state,
        }
    }
}

impl Clone for WebauthnRegistration {
    fn clone(&self) -> (r: Self)
        ensures
            r == *self,
    {
        WebauthnRegistration {
            id: self.id,
            name: self.name.clone(),
            migrated: self.migrated,
            credential: self.credential.clone(),
        }
    }
}

impl Clone for RegisterChallengeState {
    fn clone(&self) -> (r: Self)
        ensures
            r == *self,
    {
        RegisterChallengeState {
            challenge: self.challenge.clone(),
            user_handle: self.user_handle.clone(),
        }
    }
}

impl Clone for LoginChallengeState {
    fn clone(&self) -> (r: Self)
        ensures
            r.challenge == self.challenge,
            r.allow_credential_ids@ == self.allow_credential_ids@,
    {
        LoginChallengeState {
            challenge: self.challenge.clone(),
            allow_credential_ids: text::copy_texts(&self.allow_credential_ids),
        }
    }
}

/// A login allows a credential exactly where one of the ids that it goes by was named to the client.
pub proof fn law_named_credentials_are_allowed(
    allowed: Seq<String>,
    cred_id: Seq<char>,
    id: Seq<char>,
    stored_id: Seq<char>,
)
    ensures
        login_allows(allowed, cred_id, id, stored_id) <==> text::views(allowed).contains(cred_id)
            || text::views(allowed).contains(id) || text::views(allowed).contains(stored_id),
{
    let named = text::views(allowed);
    if login_allows(allowed, cred_id, id, stored_id) {
        let i = choose|i: int|
            0 <= i < allowed.len() && ((#[trigger] allowed[i])@ == cred_id || allowed[i]@ == id
                || allowed[i]@ == stored_id);
        assert(named[i] == allowed[i]@);
    }
    assert forall|t: Seq<char>|
        (t == cred_id || t == id || t == stored_id) && #[trigger] named.contains(
            t,
        ) implies login_allows(allowed, cred_id, id, stored_id) by {
        let i = choose|i: int| 0 <= i < named.len() && named[i] == t;
        assert(allowed[i]@ == t);
    }
}

} // verus!
