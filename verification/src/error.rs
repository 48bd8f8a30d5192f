//! The errors of the service, and the messages they carry.
use vstd::prelude::*;

verus! {

broadcast use vstd::string::group_string_axioms;

/// Why a request was refused.
#[derive(Debug)]
pub enum Refusal {
    BaseUrlInvalid,
    BaseUrlNotDomain,
    Base64Invalid,
    ClientDataInvalid,
    ClientDataType,
    ChallengeMismatch,
    CborNotBytes,
    CborNotInteger,
    CoseInvalid,
    CoseNotMap,
    CoseKtyMissing,
    CoseKtyUnsupported,
    CoseAlgUnsupported,
    CoseCrvMissing,
    CoseCrvUnsupported,
    CoseXMissing,
    CoseYMissing,
    PublicKeySize,
    AuthDataTooShort,
    RpIdMismatch,
    AttestedDataTruncated,
    CredentialIdTruncated,
    PublicKeyEncoding,
    CredentialType,
    AttestationInvalid,
    AttestationNotMap,
    AuthDataMissing,
    PresenceForRegistration,
    AttestedCredentialMissing,
    PublicKeyMissing,
    CredentialIdMismatch,
    NoDevices,
    AssertionInvalid,
    CredentialNotPresent,
    CredentialUnknown,
    PresenceForLogin,
    CounterMismatch,
    KeyIdInvalid,
    EmailDataUnreadable,
    YubikeyDataUnreadable,
    WebauthnDataUnreadable,
    UserNotFound,
    PasswordInvalid,
    LoginIncorrect,
    KeyLength,
    TypeInvalid,
    TotpNotConfigured,
    TotpKeyMismatch,
    EmailInvalid,
    EmailChallengeMissing,
    TokenMissing,
    TokenInvalid,
    EmailMismatch,
    EmailNotEnabled,
    TokenExpired,
    OtpLength,
    OtpRequired,
    LoginChallengeLost,
    WebauthnNotConfigured,
    SlotOutOfRange,
    KeyNameRequired,
    RegisterChallengeLost,
    CredentialAlreadyRegistered,
    TooManyKeys,
    WebauthnRowMissing,
    WebauthnEntryMissing,
    YubicoSecretNotBase64,
    YubicoOtpLength,
    YubicoUnreachable,
    YubicoResponseInvalid,
    YubicoSignatureMismatch,
    YubicoResponseMismatch,
    OtpReplayed,
    OtpRejected,
    YubicoClientUnknown,
    MailNotSent,
    /// The origin in the client data is not the one expected.
    OriginMismatch { got: String, expected: String },
    /// A setting that may be a secret or a variable is absent.
    SettingMissing { name: String },
    /// A secret is absent.
    SecretMissing { name: String },
    /// YubiCloud answered with a status that has no message of its own.
    YubicoStatus { status: String },
    /// A refusal worded by another part of the service.
    Other { message: String },
}

/// An error that a request ends with.
#[derive(Debug)]
pub enum AppError {
    BadRequest(Refusal),
    Unauthorized(Refusal),
    Database,
    Internal,
}

impl Refusal {
    /// The words of the refusal.
    pub open spec fn words(self) -> Seq<char> {
        match self {
            Refusal::BaseUrlInvalid => "BASE_URL is not a valid URL (required for WebAuthn 2FA)"@,
            Refusal::BaseUrlNotDomain => "BASE_URL host must be a DNS domain for WebAuthn (IP addresses are not supported)"@,
            Refusal::Base64Invalid => "Invalid base64url encoding"@,
            Refusal::ClientDataInvalid => "Invalid clientDataJSON"@,
            Refusal::ClientDataType => "Invalid clientData type"@,
            Refusal::ChallengeMismatch => "Challenge mismatch"@,
            Refusal::CborNotBytes => "Expected CBOR bytes"@,
            Refusal::CborNotInteger => "Expected CBOR integer"@,
            Refusal::CoseInvalid => "Invalid COSE public key"@,
            Refusal::CoseNotMap => "COSE key must be a map"@,
            Refusal::CoseKtyMissing => "Missing COSE kty"@,
            Refusal::CoseKtyUnsupported => "Only EC2 (P-256) WebAuthn credentials are supported"@,
            Refusal::CoseAlgUnsupported => "Only ES256 WebAuthn credentials are supported"@,
            Refusal::CoseCrvMissing => "Missing COSE crv"@,
            Refusal::CoseCrvUnsupported => "Only P-256 WebAuthn credentials are supported"@,
            Refusal::CoseXMissing => "Missing COSE x"@,
            Refusal::CoseYMissing => "Missing COSE y"@,
            Refusal::PublicKeySize => "Invalid P-256 public key size"@,
            Refusal::AuthDataTooShort => "authenticatorData too short"@,
            Refusal::RpIdMismatch => "RP ID hash mismatch"@,
            Refusal::AttestedDataTruncated => "attestedCredentialData truncated"@,
            Refusal::CredentialIdTruncated => "credential id truncated"@,
            Refusal::PublicKeyEncoding => "Invalid P-256 public key encoding"@,
            Refusal::CredentialType => "Invalid credential type"@,
            Refusal::AttestationInvalid => "Invalid attestationObject"@,
            Refusal::AttestationNotMap => "attestationObject must be a CBOR map"@,
            Refusal::AuthDataMissing => "Missing authData"@,
            Refusal::PresenceForRegistration => "User presence required for WebAuthn registration"@,
            Refusal::AttestedCredentialMissing => "Missing attested credential"@,
            Refusal::PublicKeyMissing => "Missing credential public key"@,
            Refusal::CredentialIdMismatch => "Credential id mismatch"@,
            Refusal::NoDevices => "No Webauthn devices registered"@,
            Refusal::AssertionInvalid => "Invalid WebAuthn assertion"@,
            Refusal::CredentialNotPresent => "Credential not present"@,
            Refusal::CredentialUnknown => "Unknown WebAuthn credential"@,
            Refusal::PresenceForLogin => "User presence required for WebAuthn login"@,
            Refusal::CounterMismatch => "WebAuthn signature counter mismatch"@,
            Refusal::KeyIdInvalid => "Invalid WebAuthn key id"@,
            Refusal::EmailDataUnreadable => "Could not decode email 2FA data"@,
            Refusal::YubikeyDataUnreadable => "Could not decode Yubikey data"@,
            Refusal::WebauthnDataUnreadable => "Could not decode WebAuthn 2FA data"@,
            Refusal::UserNotFound => "User not found"@,
            Refusal::PasswordInvalid => "Invalid password"@,
            Refusal::LoginIncorrect => "Username or password is incorrect. Try again."@,
            Refusal::KeyLength => "Invalid key length"@,
            Refusal::TypeInvalid => "Invalid two factor type"@,
            Refusal::TotpNotConfigured => "TOTP not configured"@,
            Refusal::TotpKeyMismatch => "TOTP key does not match recorded value"@,
            Refusal::EmailInvalid => "Invalid email"@,
            Refusal::EmailChallengeMissing => "Email verification challenge not found"@,
            Refusal::TokenMissing => "No token available"@,
            Refusal::TokenInvalid => "Token is invalid"@,
            Refusal::EmailMismatch => "Email does not match challenge"@,
            Refusal::EmailNotEnabled => "Email 2FA is not enabled"@,
            Refusal::TokenExpired => "Token has expired"@,
            Refusal::OtpLength => "Invalid YubiKey OTP length"@,
            Refusal::OtpRequired => "At least one YubiKey OTP is required"@,
            Refusal::LoginChallengeLost => "Can't recover login challenge"@,
            Refusal::WebauthnNotConfigured => "WebAuthn 2FA not configured"@,
            Refusal::SlotOutOfRange => "WebAuthn key id must be between 1 and 5"@,
            Refusal::KeyNameRequired => "WebAuthn key name is required"@,
            Refusal::RegisterChallengeLost => "Can't recover challenge"@,
            Refusal::CredentialAlreadyRegistered => "WebAuthn credential already registered"@,
            Refusal::TooManyKeys => "Maximum of 5 WebAuthn keys allowed"@,
            Refusal::WebauthnRowMissing => "Webauthn data not found!"@,
            Refusal::WebauthnEntryMissing => "Webauthn entry not found"@,
            Refusal::YubicoSecretNotBase64 => "Invalid YUBICO_SECRET_KEY (expected base64)"@,
            Refusal::YubicoOtpLength => "Invalid Yubikey OTP length"@,
            Refusal::YubicoUnreachable => "Failed to verify Yubikey OTP against YubiCloud"@,
            Refusal::YubicoResponseInvalid => "Invalid YubiCloud response"@,
            Refusal::YubicoSignatureMismatch => "YubiCloud response signature mismatch"@,
            Refusal::YubicoResponseMismatch => "YubiCloud response did not match request"@,
            Refusal::OtpReplayed => "Yubikey OTP already used"@,
            Refusal::OtpRejected => "Invalid Yubikey OTP provided"@,
            Refusal::YubicoClientUnknown => "YUBICO_CLIENT_ID is not recognized by YubiCloud"@,
            Refusal::MailNotSent => "Failed to send email. Check Resend API key, From address, and domain verification."@,
            Refusal::OriginMismatch { got, expected } => "Origin mismatch (got "@ + got@
                + ", expected "@ + expected@ + ")"@,
            Refusal::SettingMissing { name } => "Missing `"@ + name@
                + "`. Set it as a Worker secret (or variable)."@,
            Refusal::SecretMissing { name } => "Missing Worker secret `"@ + name@
                + "`. Set it with `wrangler secret put "@ + name@ + "`."@,
            Refusal::YubicoStatus { status } => "Yubikey verification failed ("@ + status@ + ")"@,
            Refusal::Other { message } => message@,
        }
    }

    /// The message for the client.
    pub fn message(&self) -> (r: String)
        ensures
            r@ == self.words(),
    {
        match self {
            Refusal::BaseUrlInvalid => "BASE_URL is not a valid URL (required for WebAuthn 2FA)".to_string(),
            Refusal::BaseUrlNotDomain => "BASE_URL host must be a DNS domain for WebAuthn (IP addresses are not supported)".to_string(),
            Refusal::Base64Invalid => "Invalid base64url encoding".to_string(),
            Refusal::ClientDataInvalid => "Invalid clientDataJSON".to_string(),
            Refusal::ClientDataType => "Invalid clientData type".to_string(),
            Refusal::ChallengeMismatch => "Challenge mismatch".to_string(),
            Refusal::CborNotBytes => "Expected CBOR bytes".to_string(),
            Refusal::CborNotInteger => "Expected CBOR integer".to_string(),
            Refusal::CoseInvalid => "Invalid COSE public key".to_string(),
            Refusal::CoseNotMap => "COSE key must be a map".to_string(),
            Refusal::CoseKtyMissing => "Missing COSE kty".to_string(),
            Refusal::CoseKtyUnsupported => "Only EC2 (P-256) WebAuthn credentials are supported".to_string(),
            Refusal::CoseAlgUnsupported => "Only ES256 WebAuthn credentials are supported".to_string(),
            Refusal::CoseCrvMissing => "Missing COSE crv".to_string(),
            Refusal::CoseCrvUnsupported => "Only P-256 WebAuthn credentials are supported".to_string(),
            Refusal::CoseXMissing => "Missing COSE x".to_string(),
            Refusal::CoseYMissing => "Missing COSE y".to_string(),
            Refusal::PublicKeySize => "Invalid P-256 public key size".to_string(),
            Refusal::AuthDataTooShort => "authenticatorData too short".to_string(),
            Refusal::RpIdMismatch => "RP ID hash mismatch".to_string(),
            Refusal::AttestedDataTruncated => "attestedCredentialData truncated".to_string(),
            Refusal::CredentialIdTruncated => "credential id truncated".to_string(),
            Refusal::PublicKeyEncoding => "Invalid P-256 public key encoding".to_string(),
            Refusal::CredentialType => "Invalid credential type".to_string(),
            Refusal::AttestationInvalid => "Invalid attestationObject".to_string(),
            Refusal::AttestationNotMap => "attestationObject must be a CBOR map".to_string(),
            Refusal::AuthDataMissing => "Missing authData".to_string(),
            Refusal::PresenceForRegistration => "User presence required for WebAuthn registration".to_string(),
            Refusal::AttestedCredentialMissing => "Missing attested credential".to_string(),
            Refusal::PublicKeyMissing => "Missing credential public key".to_string(),
            Refusal::CredentialIdMismatch => "Credential id mismatch".to_string(),
            Refusal::NoDevices => "No Webauthn devices registered".to_string(),
            Refusal::AssertionInvalid => "Invalid WebAuthn assertion".to_string(),
            Refusal::CredentialNotPresent => "Credential not present".to_string(),
            Refusal::CredentialUnknown => "Unknown WebAuthn credential".to_string(),
            Refusal::PresenceForLogin => "User presence required for WebAuthn login".to_string(),
            Refusal::CounterMismatch => "WebAuthn signature counter mismatch".to_string(),
            Refusal::KeyIdInvalid => "Invalid WebAuthn key id".to_string(),
            Refusal::EmailDataUnreadable => "Could not decode email 2FA data".to_string(),
            Refusal::YubikeyDataUnreadable => "Could not decode Yubikey data".to_string(),
            Refusal::WebauthnDataUnreadable => "Could not decode WebAuthn 2FA data".to_string(),
            Refusal::UserNotFound => "User not found".to_string(),
            Refusal::PasswordInvalid => "Invalid password".to_string(),
            Refusal::LoginIncorrect => "Username or password is incorrect. Try again.".to_string(),
            Refusal::KeyLength => "Invalid key length".to_string(),
            Refusal::TypeInvalid => "Invalid two factor type".to_string(),
            Refusal::TotpNotConfigured => "TOTP not configured".to_string(),
            Refusal::TotpKeyMismatch => "TOTP key does not match recorded value".to_string(),
            Refusal::EmailInvalid => "Invalid email".to_string(),
            Refusal::EmailChallengeMissing => "Email verification challenge not found".to_string(),
            Refusal::TokenMissing => "No token available".to_string(),
            Refusal::TokenInvalid => "Token is invalid".to_string(),
            Refusal::EmailMismatch => "Email does not match challenge".to_string(),
            Refusal::EmailNotEnabled => "Email 2FA is not enabled".to_string(),
            Refusal::TokenExpired => "Token has expired".to_string(),
            Refusal::OtpLength => "Invalid YubiKey OTP length".to_string(),
            Refusal::OtpRequired => "At least one YubiKey OTP is required".to_string(),
            Refusal::LoginChallengeLost => "Can't recover login challenge".to_string(),
            Refusal::WebauthnNotConfigured => "WebAuthn 2FA not configured".to_string(),
            Refusal::SlotOutOfRange => "WebAuthn key id must be between 1 and 5".to_string(),
            Refusal::KeyNameRequired => "WebAuthn key name is required".to_string(),
            Refusal::RegisterChallengeLost => "Can't recover challenge".to_string(),
            Refusal::CredentialAlreadyRegistered => "WebAuthn credential already registered".to_string(),
            Refusal::TooManyKeys => "Maximum of 5 WebAuthn keys allowed".to_string(),
            Refusal::WebauthnRowMissing => "Webauthn data not found!".to_string(),
            Refusal::WebauthnEntryMissing => "Webauthn entry not found".to_string(),
            Refusal::YubicoSecretNotBase64 => "Invalid YUBICO_SECRET_KEY (expected base64)".to_string(),
            Refusal::YubicoOtpLength => "Invalid Yubikey OTP length".to_string(),
            Refusal::YubicoUnreachable => "Failed to verify Yubikey OTP against YubiCloud".to_string(),
            Refusal::YubicoResponseInvalid => "Invalid YubiCloud response".to_string(),
            Refusal::YubicoSignatureMismatch => "YubiCloud response signature mismatch".to_string(),
            Refusal::YubicoResponseMismatch => "YubiCloud response did not match request".to_string(),
            Refusal::OtpReplayed => "Yubikey OTP already used".to_string(),
            Refusal::OtpRejected => "Invalid Yubikey OTP provided".to_string(),
            Refusal::YubicoClientUnknown => "YUBICO_CLIENT_ID is not recognized by YubiCloud".to_string(),
            Refusal::MailNotSent => "Failed to send email. Check Resend API key, From address, and domain verification.".to_string(),
            Refusal::OriginMismatch { got, expected } => {
                let mut m = "Origin mismatch (got ".to_string();
                m.append(got.as_str());
                m.append(", expected ");
                m.append(expected.as_str());
                m.append(")");
                m
            },
            Refusal::SettingMissing { name } => {
                let mut m = "Missing `".to_string();
                m.append(name.as_str());
                m.append("`. Set it as a Worker secret (or variable).");
                m
            },
            Refusal::SecretMissing { name } => {
                let mut m = "Missing Worker secret `".to_string();
                m.append(name.as_str());
                m.append("`. Set it with `wrangler secret put ");
                m.append(name.as_str());
                m.append("`.");
                m
            },
            Refusal::YubicoStatus { status } => {
                let mut m = "Yubikey verification failed (".to_string();
                m.append(status.as_str());
                m.append(")");
                m
            },
            Refusal::Other { message } => message.clone(),
        }
    }
}

/// A refusal quotes what it names whole: the origin that was sent and the one that was expected, the
/// setting that is missing, and the status that YubiCloud gave.
pub proof fn law_refusals_quote_what_they_name(got: String, expected: String)
    ensures
        ({
            let words = (Refusal::OriginMismatch { got, expected }).words();
            let end: int = 21 + got@.len() as int;
            &&& words.subrange(21, end) == got@
            &&& words.subrange(end + 11, end + 11 + expected@.len()) == expected@
            &&& words.len() == end + 12 + expected@.len()
        }),
        ({
            let words = (Refusal::SettingMissing { name: got }).words();
            &&& words.subrange(9, 9 + got@.len() as int) == got@
            &&& words.len() == 52 + got@.len()
        }),
        ({
            let words = (Refusal::SecretMissing { name: got }).words();
            let end: int = 23 + got@.len() as int;
            &&& words.subrange(23, end) == got@
            &&& words.subrange(end + 36, end + 36 + got@.len()) == got@
            &&& words.len() == end + 38 + got@.len()
        }),
        ({
            let words = (Refusal::YubicoStatus { status: got }).words();
            &&& words.subrange(29, 29 + got@.len() as int) == got@
            &&& words.len() == 30 + got@.len()
        }),
        (Refusal::Other { message: got }).words() == got@,
{
    reveal_strlit("Origin mismatch (got ");
    reveal_strlit(", expected ");
    reveal_strlit(")");
    reveal_strlit("Missing `");
    reveal_strlit("`. Set it as a Worker secret (or variable).");
    reveal_strlit("Missing Worker secret `");
    reveal_strlit("`. Set it with `wrangler secret put ");
    reveal_strlit("`.");
    reveal_strlit("Yubikey verification failed (");
}

} // verus!
