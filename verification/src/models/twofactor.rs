//! Two-factor records and the bodies of two-factor requests.
use crate::error::{AppError, Refusal};
use crate::json::{Fields, Json, JsonView};
use crate::webauthn::RegisterPublicKeyCredential;
use crate::{json, outside, text};
use vstd::prelude::*;

verus! {

broadcast use vstd::string::group_string_axioms;

/// Two-factor authentication types.
#[derive(Debug, Clone, Copy, PartialEq, Eq, Structural)]
pub enum TwoFactorType {
    /// Time-based one-time passwords.
    Authenticator,
    Email,
    Duo,
    YubiKey,
    U2f,
    Remember,
    OrganizationDuo,
    Webauthn,
    RecoveryCode,
    /// Pending email ownership proof before Email 2FA is enabled (excluded from lists).
    EmailVerificationChallenge,
    /// Pending WebAuthn registration ceremony state (excluded from lists).
    WebauthnRegisterChallenge,
    /// Pending WebAuthn login ceremony state (excluded from lists).
    WebauthnLoginChallenge,
}

impl TwoFactorType {
    /// The number by which records and clients know the type.
    pub open spec fn code(self) -> i32 {
        match self {
            TwoFactorType::Authenticator => 0,
            TwoFactorType::Email => 1,
            TwoFactorType::Duo => 2,
            TwoFactorType::YubiKey => 3,
            TwoFactorType::U2f => 4,
            TwoFactorType::Remember => 5,
            TwoFactorType::OrganizationDuo => 6,
            TwoFactorType::Webauthn => 7,
            TwoFactorType::RecoveryCode => 8,
            TwoFactorType::EmailVerificationChallenge => 1000,
            TwoFactorType::WebauthnRegisterChallenge => 1003,
            TwoFactorType::WebauthnLoginChallenge => 1004,
        }
    }

    /// The number by which records and clients know the type.
    pub fn to_i32(self) -> (r: i32)
        ensures
            r == self.code(),
    {
        match self {
            TwoFactorType::Authenticator => 0,
            TwoFactorType::Email => 1,
            TwoFactorType::Duo => 2,
            TwoFactorType::YubiKey => 3,
            TwoFactorType::U2f => 4,
            TwoFactorType::Remember => 5,
            TwoFactorType::OrganizationDuo => 6,
            TwoFactorType::Webauthn => 7,
            TwoFactorType::RecoveryCode => 8,
            TwoFactorType::EmailVerificationChallenge => 1000,
            TwoFactorType::WebauthnRegisterChallenge => 1003,
            TwoFactorType::WebauthnLoginChallenge => 1004,
        }
    }

    /// The type with this number, if there is one.
    pub open spec fn with_code(value: i32) -> Option<Self> {
        match value {
            0 => Some(TwoFactorType::Authenticator),
            1 => Some(TwoFactorType::Email),
            2 => Some(TwoFactorType::Duo),
            3 => Some(TwoFactorType::YubiKey),
            4 => Some(TwoFactorType::U2f),
            5 => Some(TwoFactorType::Remember),
            6 => Some(TwoFactorType::OrganizationDuo),
            7 => Some(TwoFactorType::Webauthn),
            8 => Some(TwoFactorType::RecoveryCode),
            1000 => Some(TwoFactorType::EmailVerificationChallenge),
            1003 => Some(TwoFactorType::WebauthnRegisterChallenge),
            1004 => Some(TwoFactorType::WebauthnLoginChallenge),
            _ => None,
        }
    }

    /// The type with this number, if there is one.
    pub fn from_i32(value: i32) -> (r: Option<Self>)
        ensures
            r == Self::with_code(value),
    {
        match value {
            0 => Some(TwoFactorType::Authenticator),
            1 => Some(TwoFactorType::Email),
            2 => Some(TwoFactorType::Duo),
            3 => Some(TwoFactorType::YubiKey),
            4 => Some(TwoFactorType::U2f),
            5 => Some(TwoFactorType::Remember),
            6 => Some(TwoFactorType::OrganizationDuo),
            7 => Some(TwoFactorType::Webauthn),
            8 => Some(TwoFactorType::RecoveryCode),
            1000 => Some(TwoFactorType::EmailVerificationChallenge),
            1003 => Some(TwoFactorType::WebauthnRegisterChallenge),
            1004 => Some(TwoFactorType::WebauthnLoginChallenge),
            _ => None,
        }
    }
}

/// A type is found under its number, and under no other.
pub proof fn law_types_are_found_by_number(t: TwoFactorType, value: i32)
    ensures
        TwoFactorType::with_code(value) == Some(t) <==> value == t.code(),
{
}

/// The types that stand for a pending ceremony, and no others, have numbers that lists leave out.
pub proof fn law_pending_types_are_unlisted(t: TwoFactorType)
    ensures
        t.code() >= 1000 <==> (t == TwoFactorType::EmailVerificationChallenge || t
            == TwoFactorType::WebauthnRegisterChallenge || t
            == TwoFactorType::WebauthnLoginChallenge),
{
}

/// Slot id that may arrive as JSON number or string (clients vary).
#[derive(Debug)]
pub enum NumberOrString {
    Number(i64),
    String(String),
}

impl NumberOrString {
    /// The slot id that was meant, if it is a number in the range of `i32`.
    pub open spec fn slot(self) -> Option<int> {
        match self {
            NumberOrString::Number(n) => if i32::MIN <= n <= i32::MAX {
                Some(n as int)
            } else {
                None
            },
            NumberOrString::String(s) => text::decimal_i32(s@),
        }
    }

    /// The slot id as a number.
    pub fn into_i32(self) -> (r: Result<i32, AppError>)
        ensures
            match self.slot() {
                Some(n) => r matches Ok(i) && i == n,
                None => r == Err::<i32, AppError>(AppError::BadRequest(Refusal::KeyIdInvalid)),
            },
    {
        match self {
            NumberOrString::Number(n) => if -2147483648 <= n && n <= 2147483647 {
                Ok(n as i32)
            } else {
                Err(AppError::BadRequest(Refusal::KeyIdInvalid))
            },
            NumberOrString::String(s) => match text::parse_i32(s.as_str()) {
                Some(i) => Ok(i),
                None => Err(AppError::BadRequest(Refusal::KeyIdInvalid)),
            },
        }
    }
}

/// POST/PUT /api/two-factor/webauthn
#[derive(Debug)]
pub struct EnableWebauthnData {
    pub id: NumberOrString,
    pub name: String,
    pub device_response: RegisterPublicKeyCredential,
    pub master_password_hash: Option<String>,
    pub otp: Option<String>,
}

/// DELETE /api/two-factor/webauthn
#[derive(Debug)]
pub struct DeleteWebauthnData {
    pub id: NumberOrString,
    pub master_password_hash: String,
}

/// The data of an Email or EmailVerificationChallenge record.
#[derive(Debug)]
pub struct EmailTokenData {
    pub email: String,
    pub last_token: Option<String>,
    pub token_sent: i64,
    pub attempts: u64,
}

impl EmailTokenData {
    /// How many digits an emailed code has.
    pub const TOKEN_DIGITS: usize = 6;

    /// How many seconds an emailed code is good for.
    pub const EXPIRATION_SECS: i64 = 600;

    /// How many wrong codes use up the one that was sent.
    pub const ATTEMPTS_LIMIT: u64 = 3;

    /// Data that issues `token` at `now`.
    pub fn issued_at(email: String, token: String, now: i64) -> (r: Self)
        ensures
            r == (EmailTokenData { email, last_token: Some(token), token_sent: now, attempts: 0 }),
    {
        EmailTokenData { email, last_token: Some(token), token_sent: now, attempts: 0 }
    }

    /// Data that issues `token` now.
    ///
    /// The clock decides `token_sent`.
    pub fn new(email: String, token: String) -> (r: Self)
        ensures
            r == (EmailTokenData {
                email,
                last_token: Some(token),
                token_sent: r.token_sent,
                attempts: 0,
            }),
            outside::clock_reading(r.token_sent),
    {
        Self::issued_at(email, token, outside::read_clock())
    }

    /// Issues another token at `now`: attempts are counted afresh.
    pub fn reissue_at(&mut self, token: String, now: i64)
        ensures
            *final(self) == (EmailTokenData {
                email: old(self).email,
                last_token: Some(token),
                token_sent: now,
                attempts: 0,
            }),
    {
        self.last_token = Some(token);
        self.token_sent = now;
        self.attempts = 0;
    }

    /// Issues another token now: attempts are counted afresh.
    ///
    /// The clock decides `token_sent`.
    pub fn set_token(&mut self, token: String)
        ensures
            *final(self) == (EmailTokenData {
                email: old(self).email,
                last_token: Some(token),
                token_sent: final(self).token_sent,
                attempts: 0,
            }),
            outside::clock_reading(final(self).token_sent),
    {
        self.reissue_at(token, outside::read_clock());
    }

    /// What is left when the token is withdrawn.
    pub open spec fn withdrawn(self) -> Self {
        EmailTokenData { last_token: None, attempts: 0, ..self }
    }

    /// Withdraws the token.
    pub fn reset_token(&mut self)
        ensures
            *final(self) == old(self).withdrawn(),
    {
        self.last_token = None;
        self.attempts = 0;
    }

    /// Counts a wrong token, up to the largest count there is.
    pub fn add_attempt(&mut self)
        ensures
            *final(self) == (EmailTokenData {
                attempts: if old(self).attempts == u64::MAX {
                    u64::MAX
                } else {
                    (old(self).attempts + 1) as u64
                },
                ..*old(self)
            }),
    {
        self.attempts = self.attempts.saturating_add(1);
    }
}

/// POST /api/two-factor/send-email
#[derive(Debug)]
pub struct SendEmailData {
    pub email: String,
    pub master_password_hash: Option<String>,
    pub otp: Option<String>,
}

/// PUT /api/two-factor/email
#[derive(Debug)]
pub struct ActivateEmailData {
    pub email: String,
    pub token: String,
    pub master_password_hash: Option<String>,
    pub otp: Option<String>,
}

/// POST /api/two-factor/send-email-login (unauthenticated)
#[derive(Debug)]
pub struct SendEmailLoginData {
    pub email: Option<String>,
    pub master_password_hash: Option<String>,
    pub device_identifier: Option<String>,
}

/// A two-factor record.
#[derive(Debug)]
pub struct TwoFactor {
    pub uuid: String,
    pub user_uuid: String,
    pub atype: i32,
    pub enabled: bool,
    pub data: String,
    pub last_used: i64,
}

impl TwoFactor {
    /// Whether this is a new record of a user: enabled, never used, under a random UUID.
    pub open spec fn is_new(self, user_uuid: Seq<char>, atype: i32, data: Seq<char>) -> bool {
        &&& outside::uuid_form(self.uuid@)
        &&& self.uuid@[14] == '4'
        &&& self.user_uuid@ == user_uuid
        &&& self.atype == atype
        &&& self.enabled
        &&& self.data@ == data
        &&& self.last_used == 0
    }

    /// Whether this is what comes of making a new record: without random numbers there is none.
    pub open spec fn is_made(
        made: Result<Self, AppError>,
        user_uuid: Seq<char>,
        atype: TwoFactorType,
        data: Seq<char>,
    ) -> bool {
        match made {
            Ok(row) => row.is_new(user_uuid, atype.code(), data) && outside::random_uuid_text(
                row.uuid@,
            ),
            Err(e) => e == AppError::Internal && outside::drawn(16, None),
        }
    }

    /// A new record of a user, under this UUID, where there is one: enabled and never used.
    pub fn under(uuid: Option<String>, user_uuid: String, atype: TwoFactorType, data: String) -> (r:
        Result<Self, AppError>)
        ensures
            r == match uuid {
                Some(uuid) => Ok::<Self, AppError>(
                    TwoFactor {
                        uuid,
                        user_uuid,
                        atype: atype.code(),
                        enabled: true,
                        data,
                        last_used: 0,
                    },
                ),
                None => Err(AppError::Internal),
            },
    {
        match uuid {
            Some(uuid) => Ok(
                TwoFactor {
                    uuid,
                    user_uuid,
                    atype: atype.to_i32(),
                    enabled: true,
                    data,
                    last_used: 0,
                },
            ),
            None => Err(AppError::Internal),
        }
    }

    /// A new record of a user: enabled, never used, under a random UUID.
    pub fn new(user_uuid: String, atype: TwoFactorType, data: String) -> (r: Result<Self, AppError>)
        ensures
            Self::is_made(r, user_uuid@, atype, data@),
    {
        Self::under(outside::random_uuid(), user_uuid, atype, data)
    }

    /// What a client is told of a record.
    pub open spec fn provider_view(self) -> JsonView {
        JsonView::Object(
            json::no_fields()
                .push(("enabled"@, JsonView::Bool(self.enabled)))
                .push(("type"@, JsonView::Int(self.atype as int)))
                .push(("object"@, JsonView::Text("twoFactorProvider"@))),
        )
    }

    /// What a client is told of a record.
    pub fn to_json_provider(&self) -> (r: Json)
        ensures
            r@ == self.provider_view(),
    {
        Fields::new().with("enabled", Json::Bool(self.enabled)).with(
            "type",
            Json::Int(self.atype as i64),
        ).with("object", json::text("twoFactorProvider")).object()
    }
}

/// The integer that stands for a truth value in a record.
pub open spec fn int_of_bool(value: bool) -> i64 {
    if value {
        1
    } else {
        0
    }
}

/// Writes a truth value as a record holds it.
pub fn bool_to_int(value: bool) -> (r: i64)
    ensures
        r == int_of_bool(value),
{
    if value {
        1
    } else {
        0
    }
}

/// Reads a truth value from a record: `None` for an integer other than 0 and 1.
pub fn bool_from_int(value: i64) -> (r: Option<bool>)
    ensures
        match r {
            Some(b) => value == int_of_bool(b),
            None => value != 0 && value != 1,
        },
{
    match value {
        0 => Some(false),
        1 => Some(true),
        _ => None,
    }
}

/// POST /api/two-factor/authenticator - Enable TOTP
#[derive(Debug)]
pub struct EnableAuthenticatorData {
    pub key: String,
    pub token: String,
    pub master_password_hash: Option<String>,
    pub otp: Option<String>,
}

/// POST /api/two-factor/disable - Disable a 2FA method
#[derive(Debug)]
pub struct DisableTwoFactorData {
    pub master_password_hash: Option<String>,
    pub otp: Option<String>,
    pub type_: i32,
}

/// DELETE /api/two-factor/authenticator - Disable TOTP with key verification
#[derive(Debug)]
pub struct DisableAuthenticatorData {
    pub key: String,
    pub master_password_hash: Option<String>,
    pub otp: Option<String>,
    pub type_: i32,
}

/// Stored YubiKey public ids (first 12 characters of OTPs) for login checks.
#[derive(Debug)]
pub struct YubikeyMetadata {
    pub keys: Vec<String>,
    pub nfc: bool,
}

/// POST/PUT /api/two-factor/yubikey
#[derive(Debug)]
pub struct EnableYubikeyData {
    pub key1: Option<String>,
    pub key2: Option<String>,
    pub key3: Option<String>,
    pub key4: Option<String>,
    pub key5: Option<String>,
    pub nfc: bool,
    pub master_password_hash: Option<String>,
    pub otp: Option<String>,
}

/// `found`, and the text in `slot` where there is one and it is not empty.
pub open spec fn with_slot(found: Seq<String>, slot: Option<String>) -> Seq<String> {
    match slot {
        Some(s) => if s@.len() == 0 {
            found
        } else {
            found.push(s)
        },
        None => found,
    }
}

/// Adds the text in `slot` where there is one and it is not empty.
fn add_slot(found: &mut Vec<String>, slot: &Option<String>)
    ensures
        final(found)@ == with_slot(old(found)@, *slot),
{
    match slot {
        Some(s) => {
            if !s.as_str().is_empty() {
                found.push(s.clone());
            }
        },
        None => {},
    }
}

impl EnableYubikeyData {
    /// The one-time passwords of a request, in the order of its slots, without the empty ones.
    pub open spec fn filled(self) -> Seq<String> {
        with_slot(
            with_slot(
                with_slot(
                    with_slot(with_slot(Seq::empty(), self.key1), self.key2),
                    self.key3,
                ),
                self.key4,
            ),
            self.key5,
        )
    }

    /// The one-time passwords of a request, in the order of its slots, without the empty ones.
    pub fn otps(&self) -> (r: Vec<String>)
        ensures
            r@ == self.filled(),
    {
        let mut found: Vec<String> = Vec::new();
        add_slot(&mut found, &self.key1);
        add_slot(&mut found, &self.key2);
        add_slot(&mut found, &self.key3);
        add_slot(&mut found, &self.key4);
        add_slot(&mut found, &self.key5);
        found
    }
}

/// A request holds at most five one-time passwords, and none of them is empty.
pub proof fn law_otps_are_few_and_filled(data: EnableYubikeyData)
    ensures
        data.filled().len() <= 5,
        forall|i: int| 0 <= i < data.filled().len() ==> (#[trigger] data.filled()[i])@.len() > 0,
{
}

impl Clone for EmailTokenData {
    fn clone(&self) -> (r: Self)
        ensures
            r == *self,
    {
        let last_token = match &self.last_token {
            Some(token) => Some(token.clone()),
            None => None,
        };
        EmailTokenData {
            email: self.email.clone(),
            last_token,
            token_sent: self.token_sent,
            attempts: self.attempts,
        }
    }
}

impl Clone for TwoFactor {
    fn clone(&self) -> (r: Self)
        ensures
            r == *self,
    {
        TwoFactor {
            uuid: self.uuid.clone(),
            user_uuid: self.user_uuid.clone(),
            atype: self.atype,
            enabled: self.enabled,
            data: self.data.clone(),
            last_used: self.last_used,
        }
    }
}

impl Clone for YubikeyMetadata {
    fn clone(&self) -> (r: Self)
        ensures
            r.keys@ == self.keys@,
            r.nfc == self.nfc,
    {
        YubikeyMetadata { keys: text::copy_texts(&self.keys), nfc: self.nfc }
    }
}

/// A request holds a one-time password exactly where one of its slots does, and as many as there are
/// slots that are not empty.
pub proof fn law_every_filled_slot_counts(data: EnableYubikeyData, s: String)
    ensures
        data.filled().contains(s) <==> s@.len() > 0 && (data.key1 == Some(s) || data.key2 == Some(s)
            || data.key3 == Some(s) || data.key4 == Some(s) || data.key5 == Some(s)),
        data.filled().len() == slot_count(data.key1) + slot_count(data.key2) + slot_count(data.key3)
            + slot_count(data.key4) + slot_count(data.key5),
{
    let none = Seq::<String>::empty();
    lemma_slot_adds(none, data.key1, s);
    let one = with_slot(none, data.key1);
    lemma_slot_adds(one, data.key2, s);
    let two = with_slot(one, data.key2);
    lemma_slot_adds(two, data.key3, s);
    let three = with_slot(two, data.key3);
    lemma_slot_adds(three, data.key4, s);
    let four = with_slot(three, data.key4);
    lemma_slot_adds(four, data.key5, s);
}

/// How many one-time passwords are in a slot.
pub open spec fn slot_count(slot: Option<String>) -> nat {
    if slot is Some && (slot->0)@.len() > 0 {
        1
    } else {
        0
    }
}

/// What one slot adds.
proof fn lemma_slot_adds(found: Seq<String>, slot: Option<String>, s: String)
    ensures
        with_slot(found, slot).contains(s) <==> found.contains(s) || (slot == Some(s) && s@.len() > 0),
        with_slot(found, slot).len() == found.len() + slot_count(slot),
{
    if let Some(t) = slot {
        if t@.len() > 0 {
            let more = found.push(t);
            assert(more[found.len() as int] == t);
            if found.contains(s) {
                let i = choose|i: int| 0 <= i < found.len() && found[i] == s;
                assert(more[i] == s);
            }
            if more.contains(s) && s != t {
                let i = choose|i: int| 0 <= i < more.len() && more[i] == s;
                assert(found[i] == s);
            }
        }
    }
}

/// The slots of a request are taken in their order.
pub proof fn law_slots_are_taken_in_order(
    data: EnableYubikeyData,
    a: String,
    b: String,
)
    requires
        data.key1 == Some(a),
        data.key2 == Some(b),
        a@.len() > 0,
        b@.len() > 0,
    ensures
        data.filled()[0] == a,
        data.filled()[1] == b,
{
}

/// A slot id may come as a number or as the text of that number, and means the same; what does not fit
/// is none.
pub proof fn law_slot_may_be_a_number_or_its_text(n: i64, s: String)
    ensures
        -2147483648 <= n <= 2147483647 <==> NumberOrString::Number(n).slot() is Some,
        NumberOrString::Number(n).slot() matches Some(slot) ==> slot == n,
        0 <= n <= 2147483647 && s@ == text::decimal_text(n as int) ==> NumberOrString::String(
            s,
        ).slot() == Some(n as int),
        2147483647 < n && s@ == text::decimal_text(n as int) ==> NumberOrString::String(
            s,
        ).slot() is None,
        s@.len() == 0 ==> NumberOrString::String(s).slot() is None,
{
    if 0 <= n && s@ == text::decimal_text(n as int) {
        text::law_decimal_reads_back(n as int);
        assert(text::digit(s@[0]));
    }
}

/// In a record 1 stands for what is true, 0 for what is not.
pub proof fn law_truth_is_one(value: bool)
    ensures
        int_of_bool(value) == 1 <==> value,
        int_of_bool(value) == 0 <==> !value,
{
}

/// Withdrawing a code takes it and the attempts at it away, and nothing else.
pub proof fn law_withdrawn_code_is_gone(data: EmailTokenData)
    ensures
        data.withdrawn().last_token is None,
        data.withdrawn().attempts == 0,
        data.withdrawn().email == data.email,
        data.withdrawn().token_sent == data.token_sent,
{
}

/// A record that is made is one of its user and of its type, enabled and not used yet, with its data and
/// under a random UUID; and it is made unless no random numbers could be drawn.
pub proof fn law_record_is_made_as_asked(
    made: Result<TwoFactor, AppError>,
    user_uuid: Seq<char>,
    atype: TwoFactorType,
    data: Seq<char>,
)
    requires
        TwoFactor::is_made(made, user_uuid, atype, data),
    ensures
        made matches Err(e) ==> e == AppError::Internal && outside::drawn(16, None),
        made matches Ok(row) ==> row.user_uuid@ == user_uuid && row.atype == atype.code()
            && row.enabled && row.data@ == data && row.last_used == 0 && outside::random_uuid_text(
            row.uuid@,
        ),
{
}

/// What is written for a truth value is read as that truth value again, and no integer but 0 and 1 is
/// read as one.
pub proof fn law_truth_is_read_as_it_was_written(
    value: bool,
    written: i64,
    number: i64,
    read: Option<bool>,
)
    requires
        call_ensures(bool_to_int, (value,), written),
        call_ensures(bool_from_int, (number,), read),
    ensures
        number == written ==> read == Some(value),
        read is Some <==> number == 0 || number == 1,
{
}

} // verus!
