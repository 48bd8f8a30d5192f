use warden_twofactor::error::Refusal;

#[test]
fn plain_refusals_have_their_words() {
    let cases = vec![
        (Refusal::BaseUrlInvalid, "BASE_URL is not a valid URL (required for WebAuthn 2FA)"),
        (Refusal::BaseUrlNotDomain, "BASE_URL host must be a DNS domain for WebAuthn (IP addresses are not supported)"),
        (Refusal::Base64Invalid, "Invalid base64url encoding"),
        (Refusal::ClientDataInvalid, "Invalid clientDataJSON"),
        (Refusal::ClientDataType, "Invalid clientData type"),
        (Refusal::ChallengeMismatch, "Challenge mismatch"),
        (Refusal::CborNotBytes, "Expected CBOR bytes"),
        (Refusal::CborNotInteger, "Expected CBOR integer"),
        (Refusal::CoseInvalid, "Invalid COSE public key"),
        (Refusal::CoseNotMap, "COSE key must be a map"),
        (Refusal::CoseKtyMissing, "Missing COSE kty"),
        (Refusal::CoseKtyUnsupported, "Only EC2 (P-256) WebAuthn credentials are supported"),
        (Refusal::CoseAlgUnsupported, "Only ES256 WebAuthn credentials are supported"),
        (Refusal::CoseCrvMissing, "Missing COSE crv"),
        (Refusal::CoseCrvUnsupported, "Only P-256 WebAuthn credentials are supported"),
        (Refusal::CoseXMissing, "Missing COSE x"),
        (Refusal::CoseYMissing, "Missing COSE y"),
        (Refusal::PublicKeySize, "Invalid P-256 public key size"),
        (Refusal::AuthDataTooShort, "authenticatorData too short"),
        (Refusal::RpIdMismatch, "RP ID hash mismatch"),
        (Refusal::AttestedDataTruncated, "attestedCredentialData truncated"),
        (Refusal::CredentialIdTruncated, "credential id truncated"),
        (Refusal::PublicKeyEncoding, "Invalid P-256 public key encoding"),
        (Refusal::CredentialType, "Invalid credential type"),
        (Refusal::AttestationInvalid, "Invalid attestationObject"),
        (Refusal::AttestationNotMap, "attestationObject must be a CBOR map"),
        (Refusal::AuthDataMissing, "Missing authData"),
        (Refusal::PresenceForRegistration, "User presence required for WebAuthn registration"),
        (Refusal::AttestedCredentialMissing, "Missing attested credential"),
        (Refusal::PublicKeyMissing, "Missing credential public key"),
        (Refusal::CredentialIdMismatch, "Credential id mismatch"),
        (Refusal::NoDevices, "No Webauthn devices registered"),
        (Refusal::AssertionInvalid, "Invalid WebAuthn assertion"),
        (Refusal::CredentialNotPresent, "Credential not present"),
        (Refusal::CredentialUnknown, "Unknown WebAuthn credential"),
        (Refusal::PresenceForLogin, "User presence required for WebAuthn login"),
        (Refusal::CounterMismatch, "WebAuthn signature counter mismatch"),
        (Refusal::KeyIdInvalid, "Invalid WebAuthn key id"),
        (Refusal::EmailDataUnreadable, "Could not decode email 2FA data"),
        (Refusal::YubikeyDataUnreadable, "Could not decode Yubikey data"),
        (Refusal::WebauthnDataUnreadable, "Could not decode WebAuthn 2FA data"),
        (Refusal::UserNotFound, "User not found"),
        (Refusal::PasswordInvalid, "Invalid password"),
        (Refusal::LoginIncorrect, "Username or password is incorrect. Try again."),
        (Refusal::KeyLength, "Invalid key length"),
        (Refusal::TypeInvalid, "Invalid two factor type"),
        (Refusal::TotpNotConfigured, "TOTP not configured"),
        (Refusal::TotpKeyMismatch, "TOTP key does not match recorded value"),
        (Refusal::EmailInvalid, "Invalid email"),
        (Refusal::EmailChallengeMissing, "Email verification challenge not found"),
        (Refusal::TokenMissing, "No token available"),
        (Refusal::TokenInvalid, "Token is invalid"),
        (Refusal::EmailMismatch, "Email does not match challenge"),
        (Refusal::EmailNotEnabled, "Email 2FA is not enabled"),
        (Refusal::TokenExpired, "Token has expired"),
        (Refusal::OtpLength, "Invalid YubiKey OTP length"),
        (Refusal::OtpRequired, "At least one YubiKey OTP is required"),
        (Refusal::LoginChallengeLost, "Can't recover login challenge"),
        (Refusal::WebauthnNotConfigured, "WebAuthn 2FA not configured"),
        (Refusal::SlotOutOfRange, "WebAuthn key id must be between 1 and 5"),
        (Refusal::KeyNameRequired, "WebAuthn key name is required"),
        (Refusal::RegisterChallengeLost, "Can't recover challenge"),
        (Refusal::CredentialAlreadyRegistered, "WebAuthn credential already registered"),
        (Refusal::TooManyKeys, "Maximum of 5 WebAuthn keys allowed"),
        (Refusal::WebauthnRowMissing, "Webauthn data not found!"),
        (Refusal::WebauthnEntryMissing, "Webauthn entry not found"),
        (Refusal::YubicoSecretNotBase64, "Invalid YUBICO_SECRET_KEY (expected base64)"),
        (Refusal::YubicoOtpLength, "Invalid Yubikey OTP length"),
        (Refusal::YubicoUnreachable, "Failed to verify Yubikey OTP against YubiCloud"),
        (Refusal::YubicoResponseInvalid, "Invalid YubiCloud response"),
        (Refusal::YubicoSignatureMismatch, "YubiCloud response signature mismatch"),
        (Refusal::YubicoResponseMismatch, "YubiCloud response did not match request"),
        (Refusal::OtpReplayed, "Yubikey OTP already used"),
        (Refusal::OtpRejected, "Invalid Yubikey OTP provided"),
        (Refusal::YubicoClientUnknown, "YUBICO_CLIENT_ID is not recognized by YubiCloud"),
        (Refusal::MailNotSent, "Failed to send email. Check Resend API key, From address, and domain verification."),
    ];
    for (refusal, words) in cases {
        assert_eq!(refusal.message(), words);
    }
}

#[test]
fn refusals_quote_what_they_are_about() {
    let origin = Refusal::OriginMismatch {
        got: "https://a".to_string(),
        expected: "https://b".to_string(),
    };
    assert_eq!(origin.message(), "Origin mismatch (got https://a, expected https://b)");
    let setting = Refusal::SettingMissing { name: "YUBICO_CLIENT_ID".to_string() };
    assert_eq!(
        setting.message(),
        "Missing `YUBICO_CLIENT_ID`. Set it as a Worker secret (or variable)."
    );
    let secret = Refusal::SecretMissing { name: "RESEND_API_KEY".to_string() };
    assert_eq!(
        secret.message(),
        "Missing Worker secret `RESEND_API_KEY`. Set it with `wrangler secret put RESEND_API_KEY`."
    );
    let status = Refusal::YubicoStatus { status: "BACKEND_ERROR".to_string() };
    assert_eq!(status.message(), "Yubikey verification failed (BACKEND_ERROR)");
    let other = Refusal::Other { message: "Invalid TOTP code".to_string() };
    assert_eq!(other.message(), "Invalid TOTP code");
}
