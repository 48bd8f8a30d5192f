use warden_twofactor::error::{AppError, Refusal};
use warden_twofactor::json::Json;
use warden_twofactor::webauthn::{
    accept_decoding, b64url_decode, b64url_encode, challenges_equal, check_assertion,
    client_data_bytes, complete_check, locate_registration, AuthDataParsed,
    credential_ids, finish_authentication, finish_registration, is_allowed, login_ceremony,
    matching_registration, parse_authenticator_data, parse_client_data, parse_cose_ec2_public_key,
    random_challenge, registration_ceremony, rp_id_hash, start_authentication, start_registration,
    user_handle_bytes, validating_uncompressed_p256, verify_client_data,
    AuthenticatorAssertionResponse, AuthenticatorAttestationResponse, ClientData,
    LoginChallengeState, PublicKeyCredentialAssertion, RegisterChallengeState,
    RegisterPublicKeyCredential, RelyingParty, SignatureCheck, StoredCredential,
    WebauthnRegistration, FLAG_AT, FLAG_BE, FLAG_BS, FLAG_UP, FLAG_UV,
};

fn party() -> RelyingParty {
    RelyingParty {
        rp_id: "vault.example.com".to_string(),
        origin: "https://vault.example.com".to_string(),
        name: "vault.example.com".to_string(),
    }
}

fn refused<T>(r: Result<T, AppError>) -> String {
    match r {
        Err(AppError::BadRequest(why)) => why.message(),
        Err(_) => panic!("another error"),
        Ok(_) => panic!("no error"),
    }
}

fn sha256(data: &[u8]) -> Vec<u8> {
    <sha2::Sha256 as sha2::Digest>::digest(data).to_vec()
}

fn b64(data: &[u8]) -> String {
    base64::Engine::encode(&base64::engine::general_purpose::URL_SAFE_NO_PAD, data)
}

fn cbor(value: &ciborium::Value) -> Vec<u8> {
    let mut out: Vec<u8> = Vec::new();
    ciborium::into_writer(value, &mut out).unwrap();
    out
}

fn number(n: i64) -> ciborium::Value {
    ciborium::Value::Integer(n.into())
}

fn cose_entries() -> Vec<(ciborium::Value, ciborium::Value)> {
    vec![
        (number(1), number(2)),
        (number(3), number(-7)),
        (number(-1), number(1)),
        (number(-2), ciborium::Value::Bytes(vec![1u8; 32])),
        (number(-3), ciborium::Value::Bytes(vec![2u8; 32])),
    ]
}

fn point() -> Vec<u8> {
    let mut key = vec![4u8];
    key.extend_from_slice(&[1u8; 32]);
    key.extend_from_slice(&[2u8; 32]);
    key
}

fn auth_data(flags: u8, count: u32, attested: Option<(&[u8], &[u8])>) -> Vec<u8> {
    let mut data = sha256(b"vault.example.com");
    data.push(flags);
    data.extend_from_slice(&count.to_be_bytes());
    if let Some((id, cose)) = attested {
        data.extend_from_slice(&[0u8; 16]);
        data.extend_from_slice(&(id.len() as u16).to_be_bytes());
        data.extend_from_slice(id);
        data.extend_from_slice(cose);
    }
    data
}

fn attestation(auth_data: Vec<u8>) -> String {
    let text = |s: &str| ciborium::Value::Text(s.to_string());
    b64(&cbor(&ciborium::Value::Map(vec![
        (text("fmt"), text("none")),
        (text("attStmt"), ciborium::Value::Map(vec![])),
        (text("authData"), ciborium::Value::Bytes(auth_data)),
    ])))
}

fn register_answer(auth: Vec<u8>, raw_id: &[u8]) -> RegisterPublicKeyCredential {
    RegisterPublicKeyCredential {
        id: b64(raw_id),
        raw_id: b64(raw_id),
        response: AuthenticatorAttestationResponse {
            attestation_object: attestation(auth),
            client_data_json: b64(b"{}"),
        },
        type_: "public-key".to_string(),
    }
}

fn register_state() -> RegisterChallengeState {
    RegisterChallengeState { challenge: b64(b"challenge"), user_handle: b64(b"user") }
}

fn client_data(type_: &str) -> Option<ClientData> {
    Some(ClientData {
        type_: type_.to_string(),
        challenge: b64(b"challenge"),
        origin: "https://vault.example.com".to_string(),
    })
}

fn registration(id: i32, cred: &[u8], count: u32) -> WebauthnRegistration {
    WebauthnRegistration {
        id,
        name: "key".to_string(),
        migrated: false,
        credential: StoredCredential {
            cred_id: b64(cred),
            public_key: b64(&point()),
            sign_count: count,
            backup_eligible: false,
            backup_state: false,
        },
    }
}

fn assertion(cred: &[u8], auth: Vec<u8>) -> PublicKeyCredentialAssertion {
    PublicKeyCredentialAssertion {
        id: b64(cred),
        raw_id: b64(cred),
        response: AuthenticatorAssertionResponse {
            authenticator_data: b64(&auth),
            client_data_json: b64(b"client data"),
            signature: b64(b"signature"),
            user_handle: None,
        },
        type_: "public-key".to_string(),
    }
}

fn login_state(ids: &[&[u8]]) -> LoginChallengeState {
    LoginChallengeState {
        challenge: b64(b"challenge"),
        allow_credential_ids: ids.iter().map(|id| b64(id)).collect(),
    }
}

fn json_field<'a>(j: &'a Json, name: &str) -> &'a Json {
    match j {
        Json::Object(fields) => {
            &fields.entries.iter().find(|e| e.0 == name).expect("field").1
        }
        _ => panic!("no object"),
    }
}

fn json_text(j: &Json) -> String {
    match j {
        Json::Text(t) => t.clone(),
        _ => panic!("no text"),
    }
}

#[test]
fn slash_after_base_changes_nothing() {
    for base in ["https://vault.example.com", "https://vault.example.com:8443/path", "blob://host"] {
        let plain = RelyingParty::from_base_url(base).unwrap();
        let slashed = RelyingParty::from_base_url(&format!("{base}/")).unwrap();
        assert_eq!(plain.rp_id, slashed.rp_id);
        assert_eq!(plain.origin, slashed.origin);
        assert_eq!(plain.name, slashed.name);
        assert_eq!(plain.name, plain.rp_id);
        assert!(!plain.origin.ends_with('/'));
    }
    for base in ["not a url", "https://127.0.0.1", ""] {
        assert_eq!(
            refused(RelyingParty::from_base_url(base)),
            refused(RelyingParty::from_base_url(&format!("{base}/")))
        );
    }
}

#[test]
fn rp_from_base_url() {
    let rp = RelyingParty::from_base_url("https://wardenworker.kylegibson.net/").unwrap();
    assert_eq!(rp.rp_id, "wardenworker.kylegibson.net");
    assert_eq!(rp.origin, "https://wardenworker.kylegibson.net");
}

#[test]
fn rp_rejects_ip() {
    assert!(RelyingParty::from_base_url("https://127.0.0.1").is_err());
}

#[test]
fn rp_faults_are_told_apart() {
    assert_eq!(
        refused(RelyingParty::from_base_url("not a url")),
        "BASE_URL is not a valid URL (required for WebAuthn 2FA)"
    );
    assert_eq!(
        refused(RelyingParty::from_base_url("https://[::1]/")),
        "BASE_URL host must be a DNS domain for WebAuthn (IP addresses are not supported)"
    );
    assert_eq!(
        refused(RelyingParty::from_base_url(&format!("{}x", "blob:".repeat(100_000)))),
        "BASE_URL host must be a DNS domain for WebAuthn (IP addresses are not supported)"
    );
    assert_eq!(RelyingParty::from_base_url("blob://host/x").unwrap().origin, "null");
    let rp = RelyingParty::from_base_url("https://vault.example.com:8443/path//").unwrap();
    assert_eq!(rp.rp_id, "vault.example.com");
    assert_eq!(rp.name, "vault.example.com");
    assert_eq!(rp.origin, "https://vault.example.com:8443");
}

#[test]
fn base64url_with_and_without_padding() {
    assert_eq!(b64url_encode(&[0xfb, 0xff]), "-_8");
    assert_eq!(b64url_decode("-_8").unwrap(), vec![0xfb, 0xff]);
    assert_eq!(b64url_decode("-_8=").unwrap(), vec![0xfb, 0xff]);
    assert_eq!(b64url_decode("  -_8\n").unwrap(), vec![0xfb, 0xff]);
    assert_eq!(refused(b64url_decode("+/8")), "Invalid base64url encoding");
    assert_eq!(b64url_decode("").unwrap(), Vec::<u8>::new());
}

#[test]
fn relying_party_is_hashed_with_sha256() {
    assert_eq!(rp_id_hash("vault.example.com"), sha256(b"vault.example.com"));
    assert_eq!(rp_id_hash("vault.example.com").len(), 32);
}

#[test]
fn challenges_are_random_and_compared_as_bytes() {
    let a = random_challenge().unwrap();
    let b = random_challenge().unwrap();
    assert_eq!(a.len(), 32);
    assert_ne!(a, b);
    assert!(challenges_equal("-_8", "-_8="));
    assert!(!challenges_equal("-_8", "-_9_"));
    assert!(!challenges_equal("-_8", "?"));
    assert!(!challenges_equal("?", "?"));
}

#[test]
fn client_data_is_checked_in_order() {
    let data = client_data("webauthn.get").unwrap();
    let rp = party();
    let challenge = b64(b"challenge");
    assert!(verify_client_data(&data, "webauthn.get", &challenge, &rp.origin).is_ok());
    assert_eq!(
        refused(verify_client_data(&data, "webauthn.create", &challenge, &rp.origin)),
        "Invalid clientData type"
    );
    assert_eq!(
        refused(verify_client_data(&data, "webauthn.get", &b64(b"other"), &rp.origin)),
        "Challenge mismatch"
    );
    assert_eq!(
        refused(verify_client_data(
            &data,
            "webauthn.get",
            &challenge,
            &"https://elsewhere".to_string()
        )),
        "Origin mismatch (got https://vault.example.com, expected https://elsewhere)"
    );
}

#[test]
fn client_data_must_be_readable() {
    assert_eq!(client_data_bytes(&b64(b"{}")), Some(b"{}".to_vec()));
    assert_eq!(client_data_bytes("!"), None);
    let (data, raw) = parse_client_data(&b64(b"{}"), client_data("webauthn.get")).unwrap();
    assert_eq!(data.type_, "webauthn.get");
    assert_eq!(raw, b"{}".to_vec());
    assert_eq!(refused(parse_client_data(&b64(b"{}"), None)), "Invalid clientDataJSON");
    assert_eq!(
        refused(parse_client_data("!", client_data("webauthn.get"))),
        "Invalid base64url encoding"
    );
}

#[test]
fn cose_key_becomes_a_point() {
    let key = parse_cose_ec2_public_key(&cbor(&ciborium::Value::Map(cose_entries()))).unwrap();
    assert_eq!(key, point());
    assert!(validating_uncompressed_p256(&key).is_ok());
    assert_eq!(
        refused(validating_uncompressed_p256(&key[..64])),
        "Invalid P-256 public key encoding"
    );
    let mut compressed = point();
    compressed[0] = 2;
    assert!(validating_uncompressed_p256(&compressed).is_err());
}

#[test]
fn cose_key_without_algorithm_is_accepted() {
    let mut entries = cose_entries();
    entries.remove(1);
    assert_eq!(
        parse_cose_ec2_public_key(&cbor(&ciborium::Value::Map(entries))).unwrap(),
        point()
    );
}

#[test]
fn cose_key_faults() {
    let key_of = |entries: Vec<(ciborium::Value, ciborium::Value)>| {
        refused(parse_cose_ec2_public_key(&cbor(&ciborium::Value::Map(entries))))
    };
    assert_eq!(refused(parse_cose_ec2_public_key(&[])), "Invalid COSE public key");
    assert_eq!(refused(parse_cose_ec2_public_key(&cbor(&number(5)))), "COSE key must be a map");
    let missing = |at: usize| {
        let mut entries = cose_entries();
        entries.remove(at);
        key_of(entries)
    };
    assert_eq!(missing(0), "Missing COSE kty");
    assert_eq!(missing(2), "Missing COSE crv");
    assert_eq!(missing(3), "Missing COSE x");
    assert_eq!(missing(4), "Missing COSE y");
    let changed = |at: usize, value: ciborium::Value| {
        let mut entries = cose_entries();
        entries[at].1 = value;
        key_of(entries)
    };
    assert_eq!(
        changed(0, number(3)),
        "Only EC2 (P-256) WebAuthn credentials are supported"
    );
    assert_eq!(changed(0, ciborium::Value::Bool(true)), "Expected CBOR integer");
    assert_eq!(changed(1, number(-8)), "Only ES256 WebAuthn credentials are supported");
    assert_eq!(changed(2, number(2)), "Only P-256 WebAuthn credentials are supported");
    assert_eq!(changed(3, number(1)), "Expected CBOR bytes");
    assert_eq!(
        changed(4, ciborium::Value::Bytes(vec![2u8; 31])),
        "Invalid P-256 public key size"
    );
}

#[test]
fn authenticator_data_is_taken_apart() {
    let cose = cbor(&ciborium::Value::Map(cose_entries()));
    let data = auth_data(FLAG_UP | FLAG_AT, 258, Some((b"credential", &cose)));
    let parsed = parse_authenticator_data(&data, &party()).unwrap();
    assert_eq!(parsed.flags, FLAG_UP | FLAG_AT);
    assert_eq!(parsed.sign_count, 258);
    assert_eq!(parsed.cred_id, Some(b"credential".to_vec()));
    assert_eq!(parsed.public_key, Some(point()));
    let bare = parse_authenticator_data(&auth_data(FLAG_UP, 7, None), &party()).unwrap();
    assert_eq!(bare.sign_count, 7);
    assert_eq!(bare.cred_id, None);
    assert_eq!(bare.public_key, None);
}

#[test]
fn bytes_behind_authenticator_data_change_nothing() {
    let cose = cbor(&ciborium::Value::Map(cose_entries()));
    let attested = auth_data(FLAG_UP | FLAG_AT, 258, Some((b"credential", &cose)));
    for data in [attested, auth_data(FLAG_UP, 7, None)] {
        let parsed = parse_authenticator_data(&data, &party()).unwrap();
        for tail in [&[0u8][..], &[0xa1, 0x61, 0x61, 0xf5][..], &[0xff; 100][..]] {
            let mut longer = data.clone();
            longer.extend_from_slice(tail);
            let again = parse_authenticator_data(&longer, &party()).unwrap();
            assert_eq!(again.flags, parsed.flags);
            assert_eq!(again.sign_count, parsed.sign_count);
            assert_eq!(again.cred_id, parsed.cred_id);
            assert_eq!(again.public_key, parsed.public_key);
        }
    }
    let mut longer = cose.clone();
    longer.extend_from_slice(&[0xff, 0x00]);
    assert_eq!(parse_cose_ec2_public_key(&longer).unwrap(), point());
}

#[test]
fn authenticator_data_faults() {
    let rp = party();
    let data = auth_data(FLAG_UP, 1, None);
    assert_eq!(
        refused(parse_authenticator_data(&data[..36], &rp)),
        "authenticatorData too short"
    );
    let mut other = data.clone();
    other[0] ^= 1;
    assert_eq!(refused(parse_authenticator_data(&other, &rp)), "RP ID hash mismatch");
    assert_eq!(
        refused(parse_authenticator_data(&auth_data(FLAG_AT, 1, None), &rp)),
        "attestedCredentialData truncated"
    );
    let whole = auth_data(FLAG_AT, 1, Some((b"credential", b"")));
    assert_eq!(
        refused(parse_authenticator_data(&whole[..whole.len() - 1], &rp)),
        "credential id truncated"
    );
    assert_eq!(refused(parse_authenticator_data(&whole, &rp)), "Invalid COSE public key");
}

#[test]
fn registration_stores_the_attested_credential() {
    let cose = cbor(&ciborium::Value::Map(cose_entries()));
    let auth = auth_data(FLAG_UP | FLAG_AT | FLAG_BE, 9, Some((b"credential", &cose)));
    let stored = finish_registration(
        &party(),
        &register_state(),
        &register_answer(auth, b"credential"),
        client_data("webauthn.create"),
    )
    .unwrap();
    assert_eq!(stored.cred_id, b64(b"credential"));
    assert_eq!(stored.public_key, b64(&point()));
    assert_eq!(stored.sign_count, 9);
    assert!(stored.backup_eligible);
    assert!(!stored.backup_state);
    assert_eq!(b64url_decode(&stored.public_key).unwrap(), point());
}

#[test]
fn registration_faults() {
    let cose = cbor(&ciborium::Value::Map(cose_entries()));
    let good = || auth_data(FLAG_UP | FLAG_AT, 0, Some((b"credential", &cose)));
    let finish = |answer: RegisterPublicKeyCredential, data: Option<ClientData>| {
        refused(finish_registration(&party(), &register_state(), &answer, data))
    };
    let create = || client_data("webauthn.create");

    let mut answer = register_answer(good(), b"credential");
    answer.type_ = "password".to_string();
    assert_eq!(finish(answer, create()), "Invalid credential type");

    assert_eq!(
        finish(register_answer(good(), b"credential"), client_data("webauthn.get")),
        "Invalid clientData type"
    );
    assert_eq!(
        finish(register_answer(good(), b"credential"), None),
        "Invalid clientDataJSON"
    );

    let mut answer = register_answer(good(), b"credential");
    answer.response.attestation_object = "!".to_string();
    assert_eq!(finish(answer, create()), "Invalid base64url encoding");

    let mut answer = register_answer(good(), b"credential");
    answer.response.attestation_object = String::new();
    assert_eq!(finish(answer, create()), "Invalid attestationObject");

    let mut answer = register_answer(good(), b"credential");
    answer.response.attestation_object = b64(&cbor(&number(1)));
    assert_eq!(finish(answer, create()), "attestationObject must be a CBOR map");

    let mut answer = register_answer(good(), b"credential");
    answer.response.attestation_object = b64(&cbor(&ciborium::Value::Map(vec![])));
    assert_eq!(finish(answer, create()), "Missing authData");

    let absent = auth_data(FLAG_AT, 0, Some((b"credential", &cose)));
    assert_eq!(
        finish(register_answer(absent, b"credential"), create()),
        "User presence required for WebAuthn registration"
    );
    assert_eq!(
        finish(register_answer(auth_data(FLAG_UP, 0, None), b"credential"), create()),
        "Missing attested credential"
    );
    assert_eq!(
        finish(register_answer(good(), b"another"), create()),
        "Credential id mismatch"
    );
}

#[test]
fn registration_options_follow_the_arguments() {
    let (options, state) = registration_ceremony(
        &party(),
        &b"handle".to_vec(),
        "user@example.com",
        "User",
        &vec!["AAAA".to_string()],
        &b"challenge".to_vec(),
    );
    assert_eq!(state.challenge, b64(b"challenge"));
    assert_eq!(state.user_handle, b64(b"handle"));
    assert_eq!(json_text(json_field(&options, "challenge")), state.challenge);
    assert_eq!(json_text(json_field(json_field(&options, "rp"), "id")), "vault.example.com");
    let user = json_field(&options, "user");
    assert_eq!(json_text(json_field(user, "id")), state.user_handle);
    assert_eq!(json_text(json_field(user, "name")), "user@example.com");
    assert_eq!(json_text(json_field(user, "displayName")), "User");
    assert!(matches!(json_field(&options, "timeout"), Json::Int(60000)));
    assert_eq!(json_text(json_field(&options, "attestation")), "none");
    match json_field(&options, "excludeCredentials") {
        Json::Array(items) => {
            assert_eq!(items.len(), 1);
            assert_eq!(json_text(json_field(&items[0], "id")), "AAAA");
            assert_eq!(json_text(json_field(&items[0], "type")), "public-key");
        }
        _ => panic!("no array"),
    }
}

#[test]
fn registration_uses_the_uuid_as_handle() {
    let uuid = "00112233-4455-6677-8899-aabbccddeeff";
    let (_, state) = start_registration(&party(), uuid, "u@e", "U", &vec![]).unwrap();
    let bytes = vec![
        0x00, 0x11, 0x22, 0x33, 0x44, 0x55, 0x66, 0x77, 0x88, 0x99, 0xaa, 0xbb, 0xcc, 0xdd, 0xee,
        0xff,
    ];
    assert_eq!(b64url_decode(&state.user_handle).unwrap(), bytes);
    assert_eq!(b64url_decode(&state.challenge).unwrap().len(), 32);
    let (_, state) = start_registration(&party(), "somebody", "u@e", "U", &vec![]).unwrap();
    assert_eq!(b64url_decode(&state.user_handle).unwrap(), b"somebody".to_vec());
    assert_eq!(user_handle_bytes(Some(vec![1, 2]), "x"), vec![1, 2]);
    assert_eq!(user_handle_bytes(None, "x"), b"x".to_vec());
}

#[test]
fn login_needs_a_device() {
    assert_eq!(
        refused(start_authentication(&party(), &vec![])),
        "No Webauthn devices registered"
    );
}

#[test]
fn login_options_allow_every_key() {
    let keys = vec![registration(1, b"one", 0), registration(2, b"two", 0)];
    let (options, state) = login_ceremony(&party(), &keys, &b"challenge".to_vec());
    assert_eq!(state.challenge, b64(b"challenge"));
    assert_eq!(state.allow_credential_ids, vec![b64(b"one"), b64(b"two")]);
    assert_eq!(credential_ids(&keys), state.allow_credential_ids);
    assert_eq!(json_text(json_field(&options, "rpId")), "vault.example.com");
    assert_eq!(json_text(json_field(&options, "userVerification")), "discouraged");
    assert_eq!(
        json_text(json_field(json_field(&options, "extensions"), "appid")),
        "https://vault.example.com/app-id.json"
    );
    match json_field(&options, "allowCredentials") {
        Json::Array(items) => assert_eq!(items.len(), 2),
        _ => panic!("no array"),
    }
    let (_, fresh) = start_authentication(&party(), &keys).unwrap();
    assert_eq!(b64url_decode(&fresh.challenge).unwrap().len(), 32);
}

#[test]
fn login_finds_the_key_and_what_it_signed() {
    let mut keys = vec![registration(1, b"one", 0), registration(2, b"two", 4)];
    let auth = auth_data(FLAG_UP | FLAG_UV | FLAG_BE | FLAG_BS, 5, None);
    let check = check_assertion(
        &party(),
        &login_state(&[b"one", b"two"]),
        &keys,
        &Some(assertion(b"two", auth.clone())),
        client_data("webauthn.get"),
    )
    .unwrap();
    assert_eq!(check.index, 1);
    assert_eq!(check.public_key, point());
    assert_eq!(check.signature, b"signature".to_vec());
    let mut signed = auth;
    signed.extend_from_slice(&sha256(b"client data"));
    assert_eq!(check.signed, signed);
    assert_eq!(check.sign_count, 5);

    assert_eq!(finish_authentication(&mut keys, &check, Ok(())).unwrap(), 1);
    assert_eq!(keys[1].credential.sign_count, 5);
    assert!(keys[1].credential.backup_eligible);
    assert!(keys[1].credential.backup_state);
    assert_eq!(keys[1].credential.cred_id, b64(b"two"));
    assert_eq!(keys[0].credential.sign_count, 0);

    // The same signature does not work twice.
    assert_eq!(
        refused(finish_authentication(&mut keys, &check, Ok(()))),
        "WebAuthn signature counter mismatch"
    );
    assert_eq!(keys[1].credential.sign_count, 5);
}

#[test]
fn login_faults() {
    let keys = vec![registration(1, b"one", 0)];
    let state = login_state(&[b"one"]);
    let auth = || auth_data(FLAG_UP, 1, None);
    let check = |state: &LoginChallengeState,
                 a: Option<PublicKeyCredentialAssertion>,
                 data: Option<ClientData>| {
        refused(check_assertion(&party(), state, &keys, &a, data))
    };
    let get = || client_data("webauthn.get");
    assert_eq!(check(&state, None, get()), "Invalid WebAuthn assertion");
    let mut a = assertion(b"one", auth());
    a.type_ = "password".to_string();
    assert_eq!(check(&state, Some(a), get()), "Invalid credential type");
    let mut a = assertion(b"one", auth());
    a.raw_id = "!".to_string();
    assert_eq!(check(&state, Some(a), get()), "Invalid base64url encoding");
    assert_eq!(
        check(&state, Some(assertion(b"two", auth())), get()),
        "Credential not present"
    );
    assert_eq!(
        check(&login_state(&[b"two"]), Some(assertion(b"one", auth())), get()),
        "Unknown WebAuthn credential"
    );
    assert_eq!(
        check(&state, Some(assertion(b"one", auth())), client_data("webauthn.create")),
        "Invalid clientData type"
    );
    assert_eq!(
        check(&state, Some(assertion(b"one", auth())), None),
        "Invalid clientDataJSON"
    );
    assert_eq!(
        check(&state, Some(assertion(b"one", auth_data(0, 1, None))), get()),
        "User presence required for WebAuthn login"
    );
    let mut a = assertion(b"one", auth());
    a.response.signature = "!".to_string();
    assert_eq!(check(&state, Some(a), get()), "Invalid base64url encoding");
}

#[test]
fn login_goes_by_either_id() {
    let keys = vec![registration(1, b"one", 0), registration(2, b"two", 0)];
    let nothing = "none".to_string();
    assert_eq!(matching_registration(&keys, &b64(b"two"), &nothing), Some(1));
    assert_eq!(matching_registration(&keys, &nothing, &b64(b"one")), Some(0));
    assert_eq!(matching_registration(&keys, &b64(b"two"), &b64(b"one")), Some(0));
    assert_eq!(matching_registration(&keys, &nothing, &nothing), None);
    let allowed = vec!["a".to_string()];
    assert!(is_allowed(&allowed, &nothing, &nothing, &"a".to_string()));
    assert!(is_allowed(&allowed, &"a".to_string(), &nothing, &nothing));
    assert!(is_allowed(&allowed, &nothing, &"a".to_string(), &nothing));
    assert!(!is_allowed(&allowed, &nothing, &nothing, &nothing));
}

#[test]
fn failed_login_changes_nothing() {
    let mut keys = vec![registration(1, b"one", 7)];
    let check = SignatureCheck {
        index: 0,
        public_key: vec![],
        signed: vec![],
        signature: vec![],
        sign_count: 8,
        flags: FLAG_UP | FLAG_BE | FLAG_BS,
    };
    let verdict = Err(AppError::BadRequest(Refusal::Other { message: "bad".to_string() }));
    assert_eq!(refused(finish_authentication(&mut keys, &check, verdict)), "bad");
    assert_eq!(keys[0].credential.sign_count, 7);
    assert!(!keys[0].credential.backup_eligible);
}

#[test]
fn counters_that_are_not_in_use_do_not_matter() {
    let check = |count: u32| SignatureCheck {
        index: 0,
        public_key: vec![],
        signed: vec![],
        signature: vec![],
        sign_count: count,
        flags: FLAG_UP,
    };
    let mut keys = vec![registration(1, b"one", 7)];
    assert!(finish_authentication(&mut keys, &check(0), Ok(())).is_ok());
    assert_eq!(keys[0].credential.sign_count, 0);
    assert!(finish_authentication(&mut keys, &check(3), Ok(())).is_ok());
    assert!(finish_authentication(&mut keys, &check(3), Ok(())).is_err());
    assert!(finish_authentication(&mut keys, &check(4), Ok(())).is_ok());
    let mut none: Vec<WebauthnRegistration> = vec![];
    assert_eq!(
        refused(finish_authentication(&mut none, &check(1), Ok(()))),
        "Credential not present"
    );
}

#[test]
fn a_key_that_was_eligible_for_backup_stays_so() {
    let mut keys = vec![registration(1, b"one", 0)];
    let check = |flags: u8| SignatureCheck {
        index: 0,
        public_key: vec![],
        signed: vec![],
        signature: vec![],
        sign_count: 0,
        flags,
    };
    assert!(finish_authentication(&mut keys, &check(FLAG_BE | FLAG_BS), Ok(())).is_ok());
    assert!(finish_authentication(&mut keys, &check(0), Ok(())).is_ok());
    assert!(keys[0].credential.backup_eligible);
    assert!(!keys[0].credential.backup_state);
}

#[test]
fn a_client_is_told_little_of_a_key() {
    let j = registration(3, b"one", 0).to_client_json();
    assert!(matches!(json_field(&j, "id"), Json::Int(3)));
    assert_eq!(json_text(json_field(&j, "name")), "key");
    assert!(matches!(json_field(&j, "migrated"), Json::Bool(false)));
}

#[test]
fn the_first_reading_counts() {
    assert_eq!(accept_decoding(Some(vec![1]), Some(vec![2])).unwrap(), vec![1]);
    assert_eq!(accept_decoding(None, Some(vec![2])).unwrap(), vec![2]);
    assert_eq!(refused(accept_decoding(None, None)), "Invalid base64url encoding");
}

#[test]
fn registrations_are_located_where_allowed() {
    let keys = vec![registration(1, b"one", 0), registration(2, b"two", 0)];
    let nothing = "none".to_string();
    let allowed = vec![b64(b"two")];
    assert_eq!(locate_registration(&allowed, &keys, &b64(b"two"), &nothing).unwrap(), 1);
    assert_eq!(
        refused(locate_registration(&allowed, &keys, &b64(b"one"), &nothing)),
        "Unknown WebAuthn credential"
    );
    assert_eq!(
        refused(locate_registration(&allowed, &keys, &nothing, &nothing)),
        "Credential not present"
    );
}

#[test]
fn checks_are_completed_with_what_was_read() {
    let parsed = |flags: u8| AuthDataParsed { flags, sign_count: 3, cred_id: None, public_key: None };
    let check = complete_check(4, &parsed(FLAG_UP), Some(vec![1]), Some(vec![2]), vec![3]).unwrap();
    assert_eq!((check.index, check.sign_count, check.flags), (4, 3, FLAG_UP));
    assert_eq!((check.public_key, check.signature, check.signed), (vec![1], vec![2], vec![3]));
    assert_eq!(
        refused(complete_check(0, &parsed(0), Some(vec![]), Some(vec![]), vec![])),
        "User presence required for WebAuthn login"
    );
    assert_eq!(
        refused(complete_check(0, &parsed(FLAG_UP), None, Some(vec![]), vec![])),
        "Invalid base64url encoding"
    );
    assert_eq!(
        refused(complete_check(0, &parsed(FLAG_UP), Some(vec![]), None, vec![])),
        "Invalid base64url encoding"
    );
}

#[test]
fn copies_of_keys_are_equal() {
    let key = registration(3, b"one", 7);
    let copy = key.clone();
    assert_eq!((copy.id, copy.name, copy.migrated), (key.id, key.name, key.migrated));
    assert_eq!(copy.credential.cred_id, key.credential.cred_id);
    assert_eq!(copy.credential.sign_count, 7);
    let rp = party();
    assert_eq!(rp.clone().origin, rp.origin);
    let state = login_state(&[b"one", b"two"]);
    assert_eq!(state.clone().allow_credential_ids, state.allow_credential_ids);
    assert_eq!(register_state().clone().user_handle, register_state().user_handle);
}
