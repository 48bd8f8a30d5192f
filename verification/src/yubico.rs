//! YubiCloud OTP validation (Yubico OTP Validation Protocol 2.0).
//!
//! Settings:
//! - `YUBICO_CLIENT_ID` - client id from https://upgrade.yubico.com/getapikey/
//! - `YUBICO_SECRET_KEY` - base64 API key from the same page
//! - Optional `YUBICO_SERVER` - override verify host (default
//!   `https://api.yubico.com/wsapi/2.0/verify`)
use crate::crypto::ct_eq;
use crate::error::{AppError, Refusal};
use crate::exchange::{Action, Event};
use crate::sorting::{stable_sort, Ranked};
use crate::{outside, sorting, text};
use vstd::prelude::*;

verus! {

broadcast use vstd::string::group_string_axioms;

/// Where one-time passwords are verified unless a setting says otherwise.
pub const DEFAULT_VERIFY_URL: &'static str = "https://api.yubico.com/wsapi/2.0/verify";

/// How many bytes a one-time password has.
pub const OTP_LEN: usize = 44;

/// How many random bytes make a nonce.
pub const NONCE_BYTES: usize = 16;

// ---------------------------------------------------------------------------------------------
// Settings
// ---------------------------------------------------------------------------------------------

/// A setting that may be kept as a secret or as a variable.
#[derive(Debug)]
pub struct Setting {
    pub secret: Option<String>,
    pub variable: Option<String>,
}

/// The settings of YubiCloud.
#[derive(Debug)]
pub struct YubicoSettings {
    pub client_id: Setting,
    pub secret_key: Setting,
    /// The variable `YUBICO_SERVER`.
    pub server: Option<String>,
}

impl Setting {
    /// The secret, or else the variable.
    pub open spec fn value(self) -> Option<String> {
        match self.secret {
            Some(s) => Some(s),
            None => self.variable,
        }
    }
}

/// Whether an error says that the setting `name` is absent.
pub open spec fn lacks(e: AppError, name: Seq<char>) -> bool {
    e matches AppError::BadRequest(Refusal::SettingMissing { name: n }) && n@ == name
}

/// The value of a setting.
pub fn env_string(setting: &Setting, name: &str) -> (r: Result<String, AppError>)
    ensures
        match setting.value() {
            Some(v) => r == Ok::<String, AppError>(v),
            None => r matches Err(e) && lacks(e, name@),
        },
{
    match &setting.secret {
        Some(s) => Ok(s.clone()),
        None => match &setting.variable {
            Some(v) => Ok(v.clone()),
            None => Err(AppError::BadRequest(Refusal::SettingMissing { name: name.to_owned() })),
        },
    }
}

impl YubicoSettings {
    /// What is wrong with an attempt to read the credentials, where something is.
    pub open spec fn faulted(self, e: AppError) -> bool {
        if self.client_id.value() is None {
            lacks(e, "YUBICO_CLIENT_ID"@)
        } else {
            self.secret_key.value() is None && lacks(e, "YUBICO_SECRET_KEY"@)
        }
    }

    /// Whether both credentials are there.
    pub open spec fn complete(self) -> bool {
        self.client_id.value() is Some && self.secret_key.value() is Some
    }
}

/// The client id and the API key.
pub fn yubico_credentials(settings: &YubicoSettings) -> (r: Result<(String, String), AppError>)
    ensures
        match r {
            Ok(p) => settings.client_id.value() == Some(p.0) && settings.secret_key.value() == Some(
                p.1,
            ),
            Err(e) => settings.faulted(e),
        },
        r is Ok <==> settings.complete(),
{
    let client_id = match env_string(&settings.client_id, "YUBICO_CLIENT_ID") {
        Ok(v) => v,
        Err(e) => return Err(e),
    };
    match env_string(&settings.secret_key, "YUBICO_SECRET_KEY") {
        Ok(secret) => Ok((client_id, secret)),
        Err(e) => Err(e),
    }
}

/// Checks that the credentials are there.
pub fn ensure_configured(settings: &YubicoSettings) -> (r: Result<(), AppError>)
    ensures
        r is Ok <==> settings.complete(),
        r matches Err(e) ==> settings.faulted(e),
{
    match yubico_credentials(settings) {
        Ok(_) => Ok(()),
        Err(e) => Err(e),
    }
}

/// Where one-time passwords are verified.
pub open spec fn server_url(server: Option<String>) -> Seq<char> {
    match server {
        Some(s) => if text::trimmed(s@).len() > 0 {
            s@
        } else {
            DEFAULT_VERIFY_URL@
        },
        None => DEFAULT_VERIFY_URL@,
    }
}

/// Where one-time passwords are verified: the server that was set, unless its name is blank.
pub fn verify_url(server: &Option<String>) -> (r: String)
    ensures
        r@ == server_url(*server),
{
    match server {
        Some(s) => if !text::trim(s.as_str()).as_str().is_empty() {
            s.clone()
        } else {
            DEFAULT_VERIFY_URL.to_owned()
        },
        None => DEFAULT_VERIFY_URL.to_owned(),
    }
}

/// The nonce that random bytes make, where there are any.
pub fn nonce_of(bytes: Option<Vec<u8>>) -> (r: Result<String, AppError>)
    ensures
        match bytes {
            Some(b) => r matches Ok(n) && n@ == outside::hex_of(b@),
            None => r == Err::<String, AppError>(AppError::Internal),
        },
{
    match bytes {
        Some(b) => Ok(outside::hex_encode(b.as_slice())),
        None => Err(AppError::Internal),
    }
}

/// A fresh nonce: the hexadecimal writing of random bytes.
pub fn random_nonce() -> (r: Result<String, AppError>)
    ensures
        match r {
            Ok(n) => is_nonce(n@),
            Err(e) => e == AppError::Internal && outside::drawn(NONCE_BYTES, None),
        },
{
    let bytes = outside::random_bytes(NONCE_BYTES);
    assert(call_ensures(outside::random_bytes, (NONCE_BYTES,), bytes));
    nonce_of(bytes)
}

/// Whether a text is the hexadecimal writing of random bytes that make a nonce.
pub open spec fn is_nonce(s: Seq<char>) -> bool {
    exists|bytes: Seq<u8>|
        bytes.len() == NONCE_BYTES && outside::drawn(NONCE_BYTES, Some(bytes)) && s
            == #[trigger] outside::hex_of(bytes)
}

// ---------------------------------------------------------------------------------------------
// Signatures
// ---------------------------------------------------------------------------------------------

/// A parameter as it is signed.
pub open spec fn param_text(name: Seq<char>, value: Seq<char>) -> Seq<char> {
    name + "="@ + value
}

/// Parameters as they are signed, joined by ampersands.
pub open spec fn line_of(params: Seq<(String, String)>) -> Seq<char>
    decreases params.len(),
{
    if params.len() == 0 {
        Seq::empty()
    } else if params.len() == 1 {
        param_text(params[0].0@, params[0].1@)
    } else {
        line_of(params.drop_last()) + "&"@ + param_text(params.last().0@, params.last().1@)
    }
}

/// The text that is signed for some parameters: all of them, sorted by name.
pub open spec fn signed_text(params: Seq<(String, String)>) -> Seq<char> {
    line_of(sorting::in_order(params))
}

/// A parameter as it is signed.
fn param(name: &str, value: &str) -> (r: String)
    ensures
        r@ == param_text(name@, value@),
{
    let mut out = name.to_owned();
    out.append("=");
    out.append(value);
    out
}

/// The text that is signed for some parameters: all of them, sorted by name.
pub fn signing_line(params: Vec<(String, String)>) -> (r: String)
    ensures
        r@ == signed_text(params@),
{
    let sorted = stable_sort(params);
    let mut line = String::new();
    let mut i: usize = 0;
    while i < sorted.len()
        invariant
            i <= sorted.len(),
            line@ == line_of(sorted@.take(i as int)),
        decreases sorted.len() - i,
    {
        let ghost longer = sorted@.take(i + 1);
        assert(longer.drop_last() =~= sorted@.take(i as int));
        let piece = param(sorted[i].0.as_str(), sorted[i].1.as_str());
        if i > 0 {
            line.append("&");
            line.append(piece.as_str());
        } else {
            line = piece;
        }
        i = i + 1;
    }
    assert(sorted@.take(i as int) =~= sorted@);
    line
}

/// The key that the API key setting writes.
pub open spec fn key_of(secret_b64: Seq<char>) -> Option<Seq<u8>> {
    outside::base64_decoded(text::trimmed(secret_b64))
}

/// The key that the API key setting writes in base64, whose surrounding white space does not
/// count.
pub fn signing_key(secret_b64: &str) -> (r: Option<Vec<u8>>)
    ensures
        outside::bytes_view(r) == key_of(secret_b64@),
{
    outside::base64_decode(text::trim(secret_b64).as_str())
}

// ---------------------------------------------------------------------------------------------
// Answers
// ---------------------------------------------------------------------------------------------

/// The name and the value in a line of an answer.
pub open spec fn kv_of_line(line: Seq<char>) -> Option<(Seq<char>, Seq<char>)> {
    text::split_at_first(text::trimmed(line), '=')
}

/// The names and values in the lines of an answer; lines without an equals sign do not count.
pub open spec fn kv_of_lines(lines: Seq<Seq<char>>) -> Seq<(Seq<char>, Seq<char>)>
    decreases lines.len(),
{
    if lines.len() == 0 {
        Seq::empty()
    } else {
        match kv_of_line(lines.last()) {
            Some(kv) => kv_of_lines(lines.drop_last()).push(kv),
            None => kv_of_lines(lines.drop_last()),
        }
    }
}

/// The names and values in the body of an answer.
pub open spec fn kv_of_body(body: Seq<char>) -> Seq<(Seq<char>, Seq<char>)> {
    kv_of_lines(text::split_all(body, '\n'))
}

/// Reads the names and values in the body of an answer, one to a line.
pub fn parse_kv_body(body: &str) -> (r: Vec<(String, String)>)
    ensures
        outside::pairs_view(r@) == kv_of_body(body@),
{
    let lines = text::split(body, '\n');
    let ghost all = text::views(lines@);
    let mut fields: Vec<(String, String)> = Vec::new();
    let mut i: usize = 0;
    assert(outside::pairs_view(fields@) =~= kv_of_lines(all.take(0)));
    while i < lines.len()
        invariant
            i <= lines.len(),
            all == text::views(lines@),
            outside::pairs_view(fields@) == kv_of_lines(all.take(i as int)),
        decreases lines.len() - i,
    {
        let ghost before = fields@;
        assert(all.take(i + 1).drop_last() =~= all.take(i as int));
        let line = text::trim(lines[i].as_str());
        match text::split_once(line.as_str(), '=') {
            Some(kv) => {
                fields.push(kv);
                assert(outside::pairs_view(fields@) =~= outside::pairs_view(before).push(
                    text::pair_view(kv),
                ));
            },
            None => {},
        }
        i = i + 1;
    }
    assert(all.take(i as int) =~= all);
    fields
}

/// The first value under a name.
pub open spec fn field_of(fields: Seq<(Seq<char>, Seq<char>)>, name: Seq<char>) -> Option<
    Seq<char>,
>
    decreases fields.len(),
{
    if fields.len() == 0 {
        None
    } else if fields.first().0 == name {
        Some(fields.first().1)
    } else {
        field_of(fields.drop_first(), name)
    }
}

/// The first value under a name.
pub fn field(fields: &Vec<(String, String)>, name: &str) -> (r: Option<String>)
    ensures
        outside::text_view(r) == field_of(outside::pairs_view(fields@), name@),
{
    let ghost all = outside::pairs_view(fields@);
    let mut i: usize = 0;
    assert(all.skip(0) =~= all);
    while i < fields.len()
        invariant
            i <= fields.len(),
            all == outside::pairs_view(fields@),
            field_of(all, name@) == field_of(all.skip(i as int), name@),
        decreases fields.len() - i,
    {
        assert(all.skip(i as int).first() == all[i as int]);
        assert(all.skip(i as int).drop_first() =~= all.skip(i + 1));
        if text::same_text(fields[i].0.as_str(), name) {
            return Some(fields[i].1.clone());
        }
        i = i + 1;
    }
    None
}

/// The fields under other names.
pub open spec fn without(fields: Seq<(Seq<char>, Seq<char>)>, name: Seq<char>) -> Seq<
    (Seq<char>, Seq<char>),
>
    decreases fields.len(),
{
    if fields.len() == 0 {
        fields
    } else if fields.last().0 == name {
        without(fields.drop_last(), name)
    } else {
        without(fields.drop_last(), name).push(fields.last())
    }
}

/// The fields under other names.
pub fn without_field(fields: &Vec<(String, String)>, name: &str) -> (r: Vec<(String, String)>)
    ensures
        outside::pairs_view(r@) == without(outside::pairs_view(fields@), name@),
{
    let ghost all = outside::pairs_view(fields@);
    let mut kept: Vec<(String, String)> = Vec::new();
    let mut i: usize = 0;
    assert(outside::pairs_view(kept@) =~= without(all.take(0), name@));
    while i < fields.len()
        invariant
            i <= fields.len(),
            all == outside::pairs_view(fields@),
            outside::pairs_view(kept@) == without(all.take(i as int), name@),
        decreases fields.len() - i,
    {
        let ghost before = kept@;
        assert(all.take(i + 1).drop_last() =~= all.take(i as int));
        if !text::same_text(fields[i].0.as_str(), name) {
            kept.push((fields[i].0.clone(), fields[i].1.clone()));
            assert(outside::pairs_view(kept@) =~= outside::pairs_view(before).push(all[i as int]));
        }
        i = i + 1;
    }
    assert(all.take(i as int) =~= all);
    kept
}

/// What is read of an answer of YubiCloud.
#[derive(Debug)]
pub struct OtpAnswer {
    pub h: String,
    pub status: String,
    pub otp: String,
    pub nonce: String,
    /// The fields that the signature `h` is over.
    pub signed: Vec<(String, String)>,
}

/// The text, or the empty text.
pub open spec fn or_empty(t: Option<Seq<char>>) -> Seq<char> {
    match t {
        Some(s) => s,
        None => Seq::empty(),
    }
}

/// Whether this is what the body of an answer says.
pub open spec fn says(body: Seq<char>, answer: OtpAnswer) -> bool {
    let fields = kv_of_body(body);
    &&& field_of(fields, "h"@) == Some(answer.h@)
    &&& field_of(fields, "status"@) == Some(answer.status@)
    &&& answer.otp@ == or_empty(field_of(fields, "otp"@))
    &&& answer.nonce@ == or_empty(field_of(fields, "nonce"@))
    &&& outside::pairs_view(answer.signed@) == without(fields, "h"@)
}

/// What is wrong with an answer before its signature is looked at, if anything is.
pub open spec fn answer_fault(status: u16, body: Seq<char>) -> Option<AppError> {
    if status != 200 {
        Some(AppError::BadRequest(Refusal::YubicoUnreachable))
    } else if field_of(kv_of_body(body), "h"@) is None || field_of(
        kv_of_body(body),
        "status"@,
    ) is None {
        Some(AppError::BadRequest(Refusal::YubicoResponseInvalid))
    } else {
        None
    }
}

/// Reads an answer of YubiCloud.
pub fn read_answer(status: u16, body: &str) -> (r: Result<OtpAnswer, AppError>)
    ensures
        match r {
            Ok(answer) => answer_fault(status, body@) is None && says(body@, answer),
            Err(e) => answer_fault(status, body@) == Some(e),
        },
{
    if status != 200 {
        return Err(AppError::BadRequest(Refusal::YubicoUnreachable));
    }
    let fields = parse_kv_body(body);
    let h = match field(&fields, "h") {
        Some(h) => h,
        None => return Err(AppError::BadRequest(Refusal::YubicoResponseInvalid)),
    };
    let status = match field(&fields, "status") {
        Some(status) => status,
        None => return Err(AppError::BadRequest(Refusal::YubicoResponseInvalid)),
    };
    let otp = match field(&fields, "otp") {
        Some(otp) => otp,
        None => String::new(),
    };
    let nonce = match field(&fields, "nonce") {
        Some(nonce) => nonce,
        None => String::new(),
    };
    let signed = without_field(&fields, "h");
    Ok(OtpAnswer { h, status, otp, nonce, signed })
}

/// What an answer means for a one-time password, once its signature was computed.
pub open spec fn verdict(
    answer: OtpAnswer,
    otp: Seq<char>,
    nonce: Seq<char>,
    expected_h: Seq<char>,
) -> Result<(), AppError> {
    if answer.h@ != expected_h {
        Err(AppError::BadRequest(Refusal::YubicoSignatureMismatch))
    } else if answer.otp@ != otp || answer.nonce@ != nonce {
        Err(AppError::BadRequest(Refusal::YubicoResponseMismatch))
    } else if answer.status@ == "OK"@ {
        Ok(())
    } else if answer.status@ == "REPLAYED_OTP"@ {
        Err(AppError::BadRequest(Refusal::OtpReplayed))
    } else if answer.status@ == "BAD_OTP"@ {
        Err(AppError::BadRequest(Refusal::OtpRejected))
    } else if answer.status@ == "NO_SUCH_CLIENT"@ {
        Err(AppError::BadRequest(Refusal::YubicoClientUnknown))
    } else {
        Err(AppError::BadRequest(Refusal::YubicoStatus { status: answer.status }))
    }
}

/// Judges an answer, once its signature was computed.
pub fn judge_answer(answer: &OtpAnswer, otp: &str, nonce: &str, expected_h: &str) -> (r: Result<
    (),
    AppError,
>)
    ensures
        r == verdict(*answer, otp@, nonce@, expected_h@),
{
    if !ct_eq(expected_h, answer.h.as_str()) {
        return Err(AppError::BadRequest(Refusal::YubicoSignatureMismatch));
    }
    if !text::same_text(answer.otp.as_str(), otp) || !text::same_text(
        answer.nonce.as_str(),
        nonce,
    ) {
        return Err(AppError::BadRequest(Refusal::YubicoResponseMismatch));
    }
    if text::same_text(answer.status.as_str(), "OK") {
        Ok(())
    } else if text::same_text(answer.status.as_str(), "REPLAYED_OTP") {
        Err(AppError::BadRequest(Refusal::OtpReplayed))
    } else if text::same_text(answer.status.as_str(), "BAD_OTP") {
        Err(AppError::BadRequest(Refusal::OtpRejected))
    } else if text::same_text(answer.status.as_str(), "NO_SUCH_CLIENT") {
        Err(AppError::BadRequest(Refusal::YubicoClientUnknown))
    } else {
        Err(AppError::BadRequest(Refusal::YubicoStatus { status: answer.status.clone() }))
    }
}

// ---------------------------------------------------------------------------------------------
// Verifying a one-time password
// ---------------------------------------------------------------------------------------------

/// A request to verify a one-time password.
#[derive(Debug)]
pub struct OtpRequest {
    pub client_id: String,
    /// The API key, in base64.
    pub secret: String,
    pub nonce: String,
    pub otp: String,
    /// The URL that is asked.
    pub base: String,
}

/// How far the verification of a one-time password has come.
#[derive(Debug)]
pub enum OtpCheck {
    /// The signature of the request is being computed.
    SigningRequest { request: OtpRequest },
    /// YubiCloud is being asked.
    Fetching { request: OtpRequest },
    /// The signature of the answer is being computed.
    SigningAnswer { request: OtpRequest, answer: OtpAnswer },
}

/// What comes next in the verification of a one-time password.
#[derive(Debug)]
pub enum OtpStep {
    Ask(OtpCheck, Action),
    Done(Result<(), AppError>),
}

/// The text that is signed for a request.
pub open spec fn request_line(request: OtpRequest) -> Seq<char> {
    param_text("id"@, request.client_id@) + "&"@ + param_text("nonce"@, request.nonce@) + "&"@
        + param_text("otp"@, request.otp@)
}

/// Whether this is how the verification of a one-time password begins, with the key that was read.
pub open spec fn begins_with(request: OtpRequest, key: Option<Seq<u8>>, out: OtpStep) -> bool {
    match key {
        None => out == OtpStep::Done(Err(AppError::BadRequest(Refusal::YubicoSecretNotBase64))),
        Some(k) => {
            &&& out matches OtpStep::Ask(
                OtpCheck::SigningRequest { request: r },
                Action::HmacSha1 { secret, message },
            )
            &&& r == request
            &&& secret@ == k
            &&& message@ == request_line(request)
        },
    }
}

/// Whether this is how the verification of a one-time password begins.
pub open spec fn begins(request: OtpRequest, out: OtpStep) -> bool {
    begins_with(request, key_of(request.secret@), out)
}

/// Parameters that stand in order are signed as they stand.
proof fn lemma_ordered_is_in_order(params: Seq<(String, String)>)
    requires
        sorting::ordered(params),
    ensures
        sorting::in_order(params) == params,
{
    assert(sorting::stably_sorts(params, params));
    sorting::lemma_in_order(params, params);
}

/// The line that is signed for a request.
fn line_of_request(request: &OtpRequest) -> (r: String)
    ensures
        r@ == request_line(*request),
{
    let mut params: Vec<(String, String)> = Vec::new();
    params.push(("id".to_owned(), request.client_id.clone()));
    params.push(("nonce".to_owned(), request.nonce.clone()));
    params.push(("otp".to_owned(), request.otp.clone()));
    proof {
        reveal_strlit("id");
        reveal_strlit("nonce");
        reveal_strlit("otp");
        let p = params@;
        assert(text::text_le("id"@, "nonce"@));
        assert(text::text_le("nonce"@, "otp"@));
        assert(text::text_le("id"@, "otp"@));
        assert(sorting::ordered(p));
        lemma_ordered_is_in_order(p);
        assert(p.drop_last().drop_last() =~= seq![p[0]]);
        reveal_with_fuel(line_of, 4);
        assert(p.drop_last().len() == 2);
        assert(line_of(p.drop_last()) == param_text("id"@, request.client_id@) + "&"@ + param_text(
            "nonce"@,
            request.nonce@,
        ));
    }
    signing_line(params)
}

/// Begins the verification of a one-time password, with the key that was read.
pub fn begin_with_key(request: OtpRequest, key: Option<Vec<u8>>) -> (out: OtpStep)
    ensures
        begins_with(request, outside::bytes_view(key), out),
{
    match key {
        None => OtpStep::Done(Err(AppError::BadRequest(Refusal::YubicoSecretNotBase64))),
        Some(key) => {
            let message = line_of_request(&request);
            OtpStep::Ask(
                OtpCheck::SigningRequest { request },
                Action::HmacSha1 { secret: key, message },
            )
        },
    }
}

/// Begins the verification of a one-time password.
pub fn begin_check(request: OtpRequest) -> (out: OtpStep)
    ensures
        begins(request, out),
{
    let key = signing_key(request.secret.as_str());
    begin_with_key(request, key)
}

/// Whether a request carries what the settings and the caller say, and a nonce.
pub open spec fn requests(settings: YubicoSettings, otp: Seq<char>, request: OtpRequest) -> bool {
    &&& settings.client_id.value() == Some(request.client_id)
    &&& settings.secret_key.value() == Some(request.secret)
    &&& is_nonce(request.nonce@)
    &&& request.otp@ == text::trimmed(otp)
    &&& request.base@ == server_url(settings.server)
}

/// Whether this is how the verification of a one-time password starts. Random numbers decide the
/// nonce; without them it cannot start.
pub open spec fn starts_check(settings: YubicoSettings, otp: Seq<char>, out: OtpStep) -> bool {
    if text::byte_len(text::trimmed(otp)) != OTP_LEN {
        out == OtpStep::Done(Err(AppError::BadRequest(Refusal::YubicoOtpLength)))
    } else if !settings.complete() {
        out matches OtpStep::Done(Err(e)) && settings.faulted(e)
    } else {
        ||| out == OtpStep::Done(Err(AppError::Internal)) && outside::drawn(NONCE_BYTES, None)
        ||| exists|request: OtpRequest|
            requests(settings, otp, request) && #[trigger] begins(request, out)
    }
}

/// Starts the verification of a one-time password against YubiCloud, or the server that was set.
pub fn verify_otp(settings: &YubicoSettings, otp: &str) -> (out: OtpStep)
    ensures
        starts_check(*settings, otp@, out),
{
    let otp = text::trim(otp);
    if !text::has_byte_len(otp.as_str(), OTP_LEN) {
        return OtpStep::Done(Err(AppError::BadRequest(Refusal::YubicoOtpLength)));
    }
    let (client_id, secret) = match yubico_credentials(settings) {
        Ok(p) => p,
        Err(e) => return OtpStep::Done(Err(e)),
    };
    let nonce = match random_nonce() {
        Ok(nonce) => nonce,
        Err(e) => return OtpStep::Done(Err(e)),
    };
    let base = verify_url(&settings.server);
    let request = OtpRequest { client_id, secret, nonce, otp, base };
    let ghost made = request;
    let out = begin_check(request);
    assert(begins(made, out));
    out
}

/// The query of a request, under the signature `h`.
pub open spec fn query_of(request: OtpRequest, h: Seq<char>) -> Seq<(Seq<char>, Seq<char>)> {
    Seq::empty().push(("id"@, request.client_id@)).push(("otp"@, request.otp@)).push(
        ("nonce"@, request.nonce@),
    ).push(("h"@, h))
}

/// The URL that a request fetches under the signature `h`: none where the base is no URL, or where
/// the URL would be too long to be indexed.
pub open spec fn request_url(request: OtpRequest, h: Seq<char>) -> Option<Seq<char>> {
    if outside::indexable_url(request.base@, query_of(request, h)) {
        Some(outside::url_with_query(request.base@, query_of(request, h)))
    } else {
        None
    }
}

/// A text takes no less room than nothing, and at most three bytes for each of its own.
proof fn lemma_form_len(bytes: Seq<u8>)
    ensures
        0 <= outside::form_len(bytes) <= 3 * bytes.len(),
    decreases bytes.len(),
{
    if bytes.len() > 0 {
        lemma_form_len(bytes.drop_last());
    }
}

/// More pairs take no less room.
proof fn lemma_query_grows(pairs: Seq<(Seq<char>, Seq<char>)>, i: int)
    requires
        0 <= i <= pairs.len(),
    ensures
        0 <= outside::query_len(pairs.take(i)) <= outside::query_len(pairs),
    decreases pairs.len(),
{
    if pairs.len() > 0 {
        lemma_form_len(vstd::utf8::encode_utf8(pairs.last().0));
        lemma_form_len(vstd::utf8::encode_utf8(pairs.last().1));
    }
    if i < pairs.len() {
        lemma_query_grows(pairs.drop_last(), i);
        assert(pairs.drop_last().take(i) =~= pairs.take(i));
    } else {
        assert(pairs.take(i) =~= pairs);
        if pairs.len() > 0 {
            lemma_query_grows(pairs.drop_last(), pairs.len() - 1);
            assert(pairs.drop_last().take(pairs.len() - 1) =~= pairs.drop_last());
        }
    }
}

/// How many bytes a text takes in a query.
pub fn form_width_of(t: &str) -> (r: u128)
    ensures
        r == outside::form_text_len(t@),
        r <= 3 * usize::MAX,
{
    let bytes = t.as_bytes();
    let mut total: u128 = 0;
    let mut i: usize = 0;
    assert(bytes@.take(0) =~= Seq::<u8>::empty());
    while i < bytes.len()
        invariant
            i <= bytes.len(),
            total == outside::form_len(bytes@.take(i as int)),
            total <= 3 * i,
        decreases bytes.len() - i,
    {
        assert(bytes@.take(i + 1).drop_last() =~= bytes@.take(i as int));
        let b: u8 = bytes[i];
        let plain = (48 <= b && b <= 57) || (65 <= b && b <= 90) || (97 <= b && b <= 122) || b == 32
            || b == 42 || b == 45 || b == 46 || b == 95;
        total = if plain {
            total + 1
        } else {
            total + 3
        };
        i = i + 1;
    }
    assert(bytes@.take(i as int) =~= bytes@);
    total
}

/// Whether a URL that is written so can be indexed with these pairs as its query.
pub fn fits_query(url: &str, pairs: &Vec<(String, String)>) -> (r: bool)
    ensures
        r == outside::indexable(url@, outside::pairs_view(pairs@)),
{
    let ghost all = outside::pairs_view(pairs@);
    proof {
        text::lemma_first_index(url@, '#');
    }
    let (head, fragment) = match text::split_once(url, '#') {
        Some((head, _)) => (head, true),
        None => (url.to_owned(), false),
    };
    let path = match text::split_once(head.as_str(), '?') {
        Some((path, _)) => path,
        None => head.clone(),
    };
    let before: usize = head.as_str().as_bytes().len();
    let start: usize = path.as_str().as_bytes().len();
    if start as u128 > u32::MAX as u128 {
        return false;
    }
    if !fragment {
        return true;
    }
    if before as u128 + 1 > u32::MAX as u128 {
        return false;
    }
    let mut total: u128 = start as u128;
    let mut i: usize = 0;
    assert(all.take(0) =~= Seq::<(Seq<char>, Seq<char>)>::empty());
    while i < pairs.len()
        invariant
            i <= pairs.len(),
            all == outside::pairs_view(pairs@),
            url@.contains('#'),
            start == text::byte_len(outside::without_query(url@)),
            text::byte_len(outside::without_fragment(url@)) + 1 <= u32::MAX,
            total == start + outside::query_len(all.take(i as int)),
            total <= u32::MAX,
        decreases pairs.len() - i,
    {
        assert(all.take(i + 1).drop_last() =~= all.take(i as int));
        let name: u128 = form_width_of(pairs[i].0.as_str());
        let value: u128 = form_width_of(pairs[i].1.as_str());
        total = total + name + value + 2;
        if total > u32::MAX as u128 {
            proof {
                lemma_query_grows(all, i + 1);
            }
            return false;
        }
        i = i + 1;
    }
    assert(all.take(i as int) =~= all);
    true
}

/// The URL that a request fetches under the signature `h`.
pub fn url_of_request(request: &OtpRequest, h: &str) -> (r: Option<String>)
    ensures
        outside::text_view(r) == request_url(*request, h@),
{
    let mut pairs: Vec<(String, String)> = Vec::new();
    pairs.push(("id".to_owned(), request.client_id.clone()));
    pairs.push(("otp".to_owned(), request.otp.clone()));
    pairs.push(("nonce".to_owned(), request.nonce.clone()));
    pairs.push(("h".to_owned(), h.to_owned()));
    assert(outside::pairs_view(pairs@) =~= query_of(*request, h@));
    let url = match outside::url_normalize(request.base.as_str()) {
        None => return None,
        Some(url) => url,
    };
    if fits_query(url.as_str(), &pairs) {
        Some(outside::set_query(request.base.as_str(), &pairs))
    } else {
        None
    }
}

/// Whether this is how YubiCloud is asked, at the URL that was made for the request.
pub open spec fn fetches(request: OtpRequest, url: Option<Seq<char>>, out: OtpStep) -> bool {
    match url {
        None => out == OtpStep::Done(Err(AppError::Internal)),
        Some(u) => {
            &&& out matches OtpStep::Ask(OtpCheck::Fetching { request: r }, Action::Fetch { url: v })
            &&& r == request
            &&& v@ == u
        },
    }
}

/// Asks YubiCloud, at the URL that was made for the request.
pub fn go_fetch(request: OtpRequest, url: Option<String>) -> (out: OtpStep)
    ensures
        fetches(request, outside::text_view(url), out),
{
    match url {
        None => OtpStep::Done(Err(AppError::Internal)),
        Some(url) => OtpStep::Ask(OtpCheck::Fetching { request }, Action::Fetch { url }),
    }
}

/// Whether this is what follows an answer of YubiCloud, with the key that was read: the signature
/// of the answer is computed.
pub open spec fn takes_answer(
    request: OtpRequest,
    status: u16,
    body: Seq<char>,
    key: Option<Seq<u8>>,
    out: OtpStep,
) -> bool {
    match (answer_fault(status, body), key) {
        (Some(e), _) => out == OtpStep::Done(Err(e)),
        (None, None) => out == OtpStep::Done(
            Err(AppError::BadRequest(Refusal::YubicoSecretNotBase64)),
        ),
        (None, Some(k)) => {
            &&& out matches OtpStep::Ask(
                OtpCheck::SigningAnswer { request: r, answer },
                Action::HmacSha1 { secret, message },
            )
            &&& r == request
            &&& says(body, answer)
            &&& secret@ == k
            &&& message@ == signed_text(answer.signed@)
        },
    }
}

/// Reads an answer of YubiCloud, and has its signature computed with the key that was read.
pub fn take_answer(
    request: OtpRequest,
    status: u16,
    body: &str,
    key: Option<Vec<u8>>,
) -> (out: OtpStep)
    ensures
        takes_answer(request, status, body@, outside::bytes_view(key), out),
{
    let answer = match read_answer(status, body) {
        Ok(answer) => answer,
        Err(e) => return OtpStep::Done(Err(e)),
    };
    match key {
        None => OtpStep::Done(Err(AppError::BadRequest(Refusal::YubicoSecretNotBase64))),
        Some(key) => {
            let message = signing_line(copy_params(&answer.signed));
            OtpStep::Ask(
                OtpCheck::SigningAnswer { request, answer },
                Action::HmacSha1 { secret: key, message },
            )
        },
    }
}

/// Whether this is what follows the answer to an action in the verification of a one-time password.
pub open spec fn otp_next(check: OtpCheck, event: Event, out: OtpStep) -> bool {
    match (check, event) {
        (_, Event::Failed(e)) => out == OtpStep::Done(Err(e)),
        (OtpCheck::SigningRequest { request }, Event::Bytes(mac)) => fetches(
            request,
            request_url(request, outside::base64_encoded(mac@)),
            out,
        ),
        (OtpCheck::Fetching { request }, Event::Answer { status, body }) => takes_answer(
            request,
            status,
            body@,
            key_of(request.secret@),
            out,
        ),
        (OtpCheck::SigningAnswer { request, answer }, Event::Bytes(mac)) => out == OtpStep::Done(
            verdict(answer, request.otp@, request.nonce@, outside::base64_encoded(mac@)),
        ),
        _ => out == OtpStep::Done(Err(AppError::Internal)),
    }
}

/// A copy of parameters.
fn copy_params(params: &Vec<(String, String)>) -> (r: Vec<(String, String)>)
    ensures
        r@ == params@,
{
    let mut out: Vec<(String, String)> = Vec::new();
    let mut i: usize = 0;
    while i < params.len()
        invariant
            i <= params.len(),
            out@ == params@.take(i as int),
        decreases params.len() - i,
    {
        out.push((params[i].0.clone(), params[i].1.clone()));
        assert(out@ =~= params@.take(i + 1));
        i = i + 1;
    }
    assert(out@ =~= params@);
    out
}

/// What follows once the answer to an action is known.
pub fn otp_step(check: OtpCheck, event: Event) -> (out: OtpStep)
    ensures
        otp_next(check, event, out),
{
    match (check, event) {
        (_, Event::Failed(e)) => OtpStep::Done(Err(e)),
        (OtpCheck::SigningRequest { request }, Event::Bytes(mac)) => {
            let h = outside::base64_encode(mac.as_slice());
            let url = url_of_request(&request, h.as_str());
            go_fetch(request, url)
        },
        (OtpCheck::Fetching { request }, Event::Answer { status, body }) => {
            let key = signing_key(request.secret.as_str());
            take_answer(request, status, body.as_str(), key)
        },
        (OtpCheck::SigningAnswer { request, answer }, Event::Bytes(mac)) => {
            let expected_h = outside::base64_encode(mac.as_slice());
            OtpStep::Done(
                judge_answer(
                    &answer,
                    request.otp.as_str(),
                    request.nonce.as_str(),
                    expected_h.as_str(),
                ),
            )
        },
        _ => OtpStep::Done(Err(AppError::Internal)),
    }
}

/// What is signed for parameters with different names does not depend on the order in which they
/// are given.
pub proof fn law_signed_text_ignores_order(a: Seq<(String, String)>, b: Seq<(String, String)>)
    requires
        a.len() == b.len(),
        forall|i: int, j: int|
            0 <= i < a.len() && 0 <= j < a.len() && i != j ==> (#[trigger] a[i]).0@ != (
            #[trigger] a[j]).0@,
        forall|i: int, j: int|
            0 <= i < b.len() && 0 <= j < b.len() && i != j ==> (#[trigger] b[i]).0@ != (
            #[trigger] b[j]).0@,
        forall|i: int| 0 <= i < a.len() ==> b.contains(#[trigger] a[i]),
        forall|j: int| 0 <= j < b.len() ==> a.contains(#[trigger] b[j]),
    ensures
        signed_text(a) == signed_text(b),
{
    lemma_names_apart(a);
    lemma_names_apart(b);
    sorting::law_order_does_not_matter(a, b);
}

/// Parameters with different names do not share a place.
proof fn lemma_names_apart(params: Seq<(String, String)>)
    requires
        forall|i: int, j: int|
            0 <= i < params.len() && 0 <= j < params.len() && i != j ==> (#[trigger] params[i]).0@
                != (#[trigger] params[j]).0@,
    ensures
        sorting::all_apart(params),
{
    assert forall|i: int, j: int|
        0 <= i < params.len() && 0 <= j < params.len() && i != j implies !sorting::same_rank(
        #[trigger] params[i],
        #[trigger] params[j],
    ) by {
        if sorting::same_rank(params[i], params[j]) {
            text::lemma_text_le_antisymmetric(params[i].0@, params[j].0@);
        }
    }
}

/// A one-time password is accepted only where YubiCloud said so under a good signature: the answer
/// carries the signature that was computed for it, the password and the nonce that were sent, and
/// the status `OK`.
pub proof fn law_accepted_otp_was_vouched_for(check: OtpCheck, event: Event, out: OtpStep)
    requires
        otp_next(check, event, out),
        out == OtpStep::Done(Ok(())),
    ensures
        check matches OtpCheck::SigningAnswer { request, answer } && event matches Event::Bytes(mac)
            && answer.h@ == outside::base64_encoded(mac@) && answer.otp@ == request.otp@
            && answer.nonce@ == request.nonce@ && answer.status@ == "OK"@,
{
}

/// A one-time password is accepted exactly where the answer carries the signature that was computed
/// for it, the password and the nonce that were sent, and the status `OK`.
pub proof fn law_vouched_otp_is_accepted(
    answer: OtpAnswer,
    otp: Seq<char>,
    nonce: Seq<char>,
    expected_h: Seq<char>,
)
    ensures
        verdict(answer, otp, nonce, expected_h) is Ok <==> (answer.h@ == expected_h && answer.otp@
            == otp && answer.nonce@ == nonce && answer.status@ == "OK"@),
{
}

/// The signature of an answer is computed under the API key, over every field of the answer but
/// the signature itself.
pub proof fn law_answer_is_signed_whole(request: OtpRequest, status: u16, body: String, out: OtpStep)
    requires
        otp_next(OtpCheck::Fetching { request }, Event::Answer { status, body }, out),
        out is Ask,
    ensures
        status == 200,
        out matches OtpStep::Ask(
            OtpCheck::SigningAnswer { request: r, answer },
            Action::HmacSha1 { secret, message },
        ) && r == request && key_of(request.secret@) == Some(secret@) && outside::pairs_view(
            answer.signed@,
        ) == without(kv_of_body(body@), "h"@) && message@ == signed_text(answer.signed@),
{
}

/// The names and values in some lines and then some more are those in the one and then those in the
/// other.
proof fn lemma_lines_add_up(a: Seq<Seq<char>>, b: Seq<Seq<char>>)
    ensures
        kv_of_lines(a + b) == kv_of_lines(a) + kv_of_lines(b),
    decreases b.len(),
{
    if b.len() == 0 {
        assert(a + b =~= a);
        assert(kv_of_lines(a) + kv_of_lines(b) =~= kv_of_lines(a));
    } else {
        let head = b.drop_last();
        lemma_lines_add_up(a, head);
        assert((a + b).drop_last() =~= a + head);
        assert((a + b).last() == b.last());
        match kv_of_line(b.last()) {
            Some(kv) => {
                assert(kv_of_lines(a + b) =~= kv_of_lines(a) + kv_of_lines(head).push(kv));
            },
            None => {},
        }
    }
}

/// What an answer says in some lines and then in some more is what it says in the one and then what it
/// says in the other.
pub proof fn law_answers_are_read_line_by_line(a: Seq<char>, b: Seq<char>)
    ensures
        kv_of_body(a + seq!['\n'] + b) == kv_of_body(a) + kv_of_body(b),
{
    text::law_joined_texts_split_apart(a, b, '\n');
    lemma_lines_add_up(text::split_all(a, '\n'), text::split_all(b, '\n'));
}

/// A line that writes a name, an equals sign and a value is read as that name and that value, whatever
/// white space is around it; and a line without an equals sign says nothing.
pub proof fn law_line_is_read_as_it_was_written(
    name: Seq<char>,
    value: Seq<char>,
    line: Seq<char>,
)
    requires
        !line.contains('\n'),
    ensures
        text::trimmed(line) == name + seq!['='] + value && !name.contains('=') ==> kv_of_body(line)
            == seq![(name, value)],
        !line.contains('=') ==> kv_of_body(line) == Seq::<(Seq<char>, Seq<char>)>::empty(),
{
    text::law_joined_texts_split_apart(line, Seq::empty(), '\n');
    let lines = text::split_all(line, '\n');
    assert(lines == seq![line]);
    assert(lines.drop_last() =~= Seq::<Seq<char>>::empty());
    assert(kv_of_lines(lines.drop_last()) == Seq::<(Seq<char>, Seq<char>)>::empty());
    let t = text::trimmed(line);
    if t == name + seq!['='] + value && !name.contains('=') {
        text::lemma_first_index(t, '=');
        assert(t[name.len() as int] == '=');
        assert(t.contains('='));
        let i = text::first_index(t, '=');
        if i < name.len() {
            assert(name[i] == t[i]);
            assert(name.contains('='));
        }
        assert(t.take(i) =~= name);
        assert(t.skip(i + 1) =~= value);
        assert(kv_of_body(line) =~= seq![(name, value)]);
    }
    if !line.contains('=') {
        let r = text::law_trimming_drops_the_white_space_around(line);
        text::lemma_first_index(t, '=');
        if t.contains('=') {
            let k = choose|k: int| 0 <= k < t.len() && t[k] == '=';
            assert(line[r.0 + k] == '=');
        }
    }
}

/// A field is found under a name exactly where there is one, and then it is the first.
pub proof fn law_first_field_counts(fields: Seq<(Seq<char>, Seq<char>)>, name: Seq<char>)
    ensures
        match field_of(fields, name) {
            Some(value) => exists|i: int|
                0 <= i < fields.len() && #[trigger] fields[i] == (name, value) && forall|j: int|
                    0 <= j < i ==> (#[trigger] fields[j]).0 != name,
            None => forall|j: int| 0 <= j < fields.len() ==> (#[trigger] fields[j]).0 != name,
        },
    decreases fields.len(),
{
    if fields.len() > 0 && fields.first().0 != name {
        let rest = fields.drop_first();
        law_first_field_counts(rest, name);
        assert(forall|j: int| 0 < j < fields.len() ==> #[trigger] fields[j] == rest[j - 1]);
        if let Some(value) = field_of(rest, name) {
            let i = choose|i: int|
                0 <= i < rest.len() && #[trigger] rest[i] == (name, value) && forall|j: int|
                    0 <= j < i ==> (#[trigger] rest[j]).0 != name;
            assert(fields[i + 1] == (name, value));
        }
    } else if fields.len() > 0 {
        assert(fields[0] == (name, fields.first().1));
    }
}

/// The fields under other names are all the fields but those under the name, in their order: without
/// one more field at the end they are the same, or the same and that field.
pub proof fn law_other_fields_stay(
    fields: Seq<(Seq<char>, Seq<char>)>,
    field: (Seq<char>, Seq<char>),
    name: Seq<char>,
)
    ensures
        field.0 == name ==> without(fields.push(field), name) == without(fields, name),
        field.0 != name ==> without(fields.push(field), name) == without(fields, name).push(field),
        without(Seq::empty(), name) == Seq::<(Seq<char>, Seq<char>)>::empty(),
{
    assert(fields.push(field).drop_last() =~= fields);
}

/// What is signed for parameters is each name, an equals sign and the value, in the order of the names,
/// joined by ampersands: one whose name comes last is signed behind the others.
pub proof fn law_parameters_are_signed_in_order(
    params: Seq<(String, String)>,
    p: (String, String),
)
    requires
        forall|i: int, j: int|
            0 <= i < j <= params.len() ==> text::text_le(
                (#[trigger] params.push(p)[i]).0@,
                (#[trigger] params.push(p)[j]).0@,
            ),
    ensures
        params.len() > 0 ==> signed_text(params.push(p)) == signed_text(params) + seq!['&'] + p.0@
            + seq!['='] + p.1@,
        params.len() == 0 ==> signed_text(params.push(p)) == p.0@ + seq!['='] + p.1@,
{
    reveal_strlit("=");
    reveal_strlit("&");
    assert("="@ =~= seq!['=']);
    assert("&"@ =~= seq!['&']);
    let all = params.push(p);
    assert(all.drop_last() =~= params);
    assert(sorting::ordered(all)) by {
        assert forall|i: int, j: int| 0 <= i < j < all.len() implies (#[trigger] all[i]).precedes(
            #[trigger] all[j],
        ) by {
            assert(text::text_le(all[i].0@, all[j].0@));
        }
    }
    lemma_ordered_is_in_order(all);
    assert(sorting::ordered(params)) by {
        assert forall|i: int, j: int| 0 <= i < j < params.len() implies (
        #[trigger] params[i]).precedes(#[trigger] params[j]) by {
            assert(all[i].precedes(all[j]));
        }
    }
    lemma_ordered_is_in_order(params);
    if params.len() > 0 {
        assert(line_of(all) =~= line_of(params) + seq!['&'] + p.0@ + seq!['='] + p.1@);
    }
}

/// The verification of a one-time password of 44 bytes starts, with the settings there and the API key
/// in base64, unless no random numbers could be drawn: the client id, a nonce of 32 hexadecimal digits and
/// the password are signed under the API key, in this order, and it is the server that was set, or the
/// one that is always there, that will be asked.
pub proof fn law_verification_starts(settings: YubicoSettings, otp: Seq<char>, out: OtpStep)
    requires
        starts_check(settings, otp, out),
    ensures
        text::byte_len(text::trimmed(otp)) != 44 ==> out == OtpStep::Done(
            Err(AppError::BadRequest(Refusal::YubicoOtpLength)),
        ),
        text::byte_len(text::trimmed(otp)) == 44 && settings.client_id.value() is Some
            && settings.secret_key.value() is Some && key_of((settings.secret_key.value()->0)@) is Some
            ==> (out == OtpStep::Done(Err(AppError::Internal)) && outside::drawn(16, None)) || ({
            &&& out matches OtpStep::Ask(
                OtpCheck::SigningRequest { request },
                Action::HmacSha1 { secret: key, message },
            )
            &&& Some(request.client_id) == settings.client_id.value()
            &&& Some(request.secret) == settings.secret_key.value()
            &&& request.otp@ == text::trimmed(otp)
            &&& request.nonce@.len() == 32
            &&& forall|i: int|
                0 <= i < 32 ==> '0' <= #[trigger] request.nonce@[i] <= '9' || 'a'
                    <= request.nonce@[i] <= 'f'
            &&& request.base@ == (match settings.server {
                Some(server) => if text::trimmed(server@).len() > 0 {
                    server@
                } else {
                    "https://api.yubico.com/wsapi/2.0/verify"@
                },
                None => "https://api.yubico.com/wsapi/2.0/verify"@,
            })
            &&& key_of(request.secret@) == Some(key@)
            &&& message@ == "id="@ + request.client_id@ + "&nonce="@ + request.nonce@ + "&otp="@
                + request.otp@
        }),
{
    if out is Ask {
        let request = choose|request: OtpRequest|
            requests(settings, otp, request) && #[trigger] begins(request, out);
        assert(begins(request, out));
        let bytes = choose|bytes: Seq<u8>|
            bytes.len() == NONCE_BYTES && outside::drawn(NONCE_BYTES, Some(bytes)) && request.nonce@
                == #[trigger] outside::hex_of(bytes);
        assert(request.nonce@ == outside::hex_of(bytes));
        assert forall|i: int| 0 <= i < 32 implies '0' <= #[trigger] request.nonce@[i] <= '9'
            || 'a' <= request.nonce@[i] <= 'f' by {
            assert(0 <= bytes[i / 2] as int / 16 < 16);
            assert(0 <= bytes[i / 2] as int % 16 < 16);
        }
        reveal_strlit("id");
        reveal_strlit("nonce");
        reveal_strlit("otp");
        reveal_strlit("=");
        reveal_strlit("&");
        reveal_strlit("id=");
        reveal_strlit("&nonce=");
        reveal_strlit("&otp=");
        assert("id="@ =~= "id"@ + "="@);
        assert("&nonce="@ =~= "&"@ + "nonce"@ + "="@);
        assert("&otp="@ =~= "&"@ + "otp"@ + "="@);
        assert(request_line(request) =~= "id="@ + request.client_id@ + "&nonce="@ + request.nonce@
            + "&otp="@ + request.otp@);
    } else {
        if exists|request: OtpRequest|
            requests(settings, otp, request) && #[trigger] begins(request, out) {
            let request = choose|request: OtpRequest|
                requests(settings, otp, request) && #[trigger] begins(request, out);
            assert(begins(request, out));
        }
    }
}

/// A setting is the secret where there is one, and otherwise the variable.
pub proof fn law_secrets_come_before_variables(setting: Setting)
    ensures
        setting.secret is Some ==> setting.value() == setting.secret,
        setting.secret is None ==> setting.value() == setting.variable,
{
}

/// The server is asked with the client id, the password, the nonce and the signature, in base64, as
/// the query of its URL; an URL that is none, or that cannot be indexed with them, is not asked.
pub proof fn law_request_carries_what_was_signed(request: OtpRequest, mac: Vec<u8>, out: OtpStep)
    requires
        otp_next(OtpCheck::SigningRequest { request }, Event::Bytes(mac), out),
    ensures
        ({
            let query = seq![("id"@, request.client_id@)].push(("otp"@, request.otp@)).push(
                ("nonce"@, request.nonce@),
            ).push(("h"@, outside::base64_encoded(mac@)));
            &&& outside::indexable_url(request.base@, query) ==> (out matches OtpStep::Ask(
                OtpCheck::Fetching { request: r },
                Action::Fetch { url },
            ) && r == request && url@ == outside::url_with_query(request.base@, query))
            &&& !outside::indexable_url(request.base@, query) ==> out == OtpStep::Done(
                Err(AppError::Internal),
            )
        }),
{
    let query = seq![("id"@, request.client_id@)].push(("otp"@, request.otp@)).push(
        ("nonce"@, request.nonce@),
    ).push(("h"@, outside::base64_encoded(mac@)));
    assert(query =~= query_of(request, outside::base64_encoded(mac@)));
}

/// An answer is looked at where its status is 200 and it has a signature and a status; what it says of
/// the password and of the nonce is then kept, and its signature is computed.
pub proof fn law_answer_is_taken_apart(
    request: OtpRequest,
    status: u16,
    body: String,
    key: Seq<u8>,
    out: OtpStep,
)
    requires
        otp_next(OtpCheck::Fetching { request }, Event::Answer { status, body }, out),
        key_of(request.secret@) == Some(key),
    ensures
        ({
            let said = |name: Seq<char>| field_of(kv_of_body(body@), name);
            &&& status != 200 ==> out == OtpStep::Done(
                Err(AppError::BadRequest(Refusal::YubicoUnreachable)),
            )
            &&& status == 200 && (said("h"@) is None || said("status"@) is None) ==> out
                == OtpStep::Done(Err(AppError::BadRequest(Refusal::YubicoResponseInvalid)))
            &&& status == 200 && said("h"@) is Some && said("status"@) is Some ==> {
                &&& out matches OtpStep::Ask(
                    OtpCheck::SigningAnswer { request: r, answer },
                    Action::HmacSha1 { secret, .. },
                )
                &&& r == request
                &&& secret@ == key
                &&& Some(answer.h@) == said("h"@)
                &&& Some(answer.status@) == said("status"@)
                &&& said("otp"@) matches Some(o) ==> answer.otp@ == o
                &&& said("nonce"@) matches Some(n) ==> answer.nonce@ == n
                &&& said("otp"@) is None ==> answer.otp@.len() == 0
                &&& said("nonce"@) is None ==> answer.nonce@.len() == 0
            }
        }),
{
}

/// What is wrong with an answer that does not accept a one-time password is told by its signature, by
/// the password and the nonce in it, and then by its status.
pub proof fn law_refused_otp_is_told_why(
    answer: OtpAnswer,
    otp: Seq<char>,
    nonce: Seq<char>,
    expected_h: Seq<char>,
)
    ensures
        ({
            let judged = verdict(answer, otp, nonce, expected_h);
            let signed = answer.h@ == expected_h;
            let matching = signed && answer.otp@ == otp && answer.nonce@ == nonce;
            &&& !signed ==> judged == Err::<(), AppError>(
                AppError::BadRequest(Refusal::YubicoSignatureMismatch),
            )
            &&& signed && !matching ==> judged == Err::<(), AppError>(
                AppError::BadRequest(Refusal::YubicoResponseMismatch),
            )
            &&& matching && answer.status@ == "REPLAYED_OTP"@ ==> judged == Err::<(), AppError>(
                AppError::BadRequest(Refusal::OtpReplayed),
            )
            &&& matching && answer.status@ == "BAD_OTP"@ ==> judged == Err::<(), AppError>(
                AppError::BadRequest(Refusal::OtpRejected),
            )
            &&& matching && answer.status@ == "NO_SUCH_CLIENT"@ ==> judged == Err::<(), AppError>(
                AppError::BadRequest(Refusal::YubicoClientUnknown),
            )
            &&& matching && answer.status@ != "OK"@ && answer.status@ != "REPLAYED_OTP"@
                && answer.status@ != "BAD_OTP"@ && answer.status@ != "NO_SUCH_CLIENT"@ ==> judged
                == Err::<(), AppError>(
                AppError::BadRequest(Refusal::YubicoStatus { status: answer.status }),
            )
        }),
{
    reveal_strlit("OK");
    reveal_strlit("REPLAYED_OTP");
    reveal_strlit("BAD_OTP");
    reveal_strlit("NO_SUCH_CLIENT");
    assert("OK"@.len() == 2 && "REPLAYED_OTP"@.len() == 12 && "BAD_OTP"@.len() == 7
        && "NO_SUCH_CLIENT"@.len() == 14);
}

/// YubiCloud can be asked exactly where both its client id and its API key are set, and where one is
/// not, the error names it, the client id first.
pub proof fn law_missing_setting_is_named(settings: YubicoSettings, e: AppError)
    ensures
        settings.complete() <==> settings.client_id.value() is Some && settings.secret_key.value() is Some,
        settings.faulted(e) && settings.client_id.value() is None ==> (
        e matches AppError::BadRequest(Refusal::SettingMissing { name }) && name@
            == "YUBICO_CLIENT_ID"@),
        settings.faulted(e) && settings.client_id.value() is Some ==> (
        e matches AppError::BadRequest(Refusal::SettingMissing { name }) && name@
            == "YUBICO_SECRET_KEY"@),
{
}

/// White space around the API key does not count: without any, the key is what base64 reads.
pub proof fn law_white_space_around_the_key_does_not_count(secret: Seq<char>)
    ensures
        key_of(secret) == key_of(text::trimmed(secret)),
        text::trimmed(secret) == secret ==> key_of(secret) == outside::base64_decoded(secret),
{
    text::law_trimmed_text_stays(secret);
}

/// A URL can be given a query as long as the place where the query starts fits in 32 bits, and, where it
/// has a fragment, the place behind the number sign before and where the fragment starts after.
pub proof fn law_places_in_a_url_fit_in_32_bits(
    path: Seq<char>,
    query: Seq<char>,
    fragment: Seq<char>,
    pairs: Seq<(Seq<char>, Seq<char>)>,
)
    requires
        !path.contains('?'),
        !path.contains('#'),
        !query.contains('#'),
    ensures
        outside::indexable(path, pairs) <==> text::byte_len(path) <= 4294967295,
        outside::indexable(path + seq!['?'] + query, pairs) <==> text::byte_len(path) <= 4294967295,
        outside::indexable(path + seq!['#'] + fragment, pairs) <==> text::byte_len(path) + 1
            <= 4294967295 && text::byte_len(path) + outside::query_len(pairs) <= 4294967295,
{
    lemma_split_behind(path, query, '?');
    lemma_split_behind(path, fragment, '#');
    text::lemma_first_index(path, '#');
    text::lemma_first_index(path, '?');
    let asked = path + seq!['?'] + query;
    let marked = path + seq!['#'] + fragment;
    text::lemma_first_index(asked, '#');
    if asked.contains('#') {
        let k = choose|k: int| 0 <= k < asked.len() && asked[k] == '#';
        if k < path.len() {
            assert(path[k] == '#');
        } else {
            assert(query[k - path.len() - 1] == '#');
        }
    }
    assert(marked[path.len() as int] == '#');
    assert(marked.contains('#'));
}

/// A text behind which a character first comes is what is before it.
proof fn lemma_split_behind(a: Seq<char>, b: Seq<char>, c: char)
    requires
        !a.contains(c),
    ensures
        text::split_at_first(a + seq![c] + b, c) == Some((a, b)),
{
    let s = a + seq![c] + b;
    text::lemma_first_index(s, c);
    assert(s[a.len() as int] == c);
    assert(s.contains(c));
    let i = text::first_index(s, c);
    if i < a.len() {
        assert(a[i] == c);
    }
    assert(s.take(i) =~= a);
    assert(s.skip(i + 1) =~= b);
}

/// A query takes the room of its pairs: each of a name and a value, with an equals sign between them and
/// a sign before them. Letters and digits take one byte each.
pub proof fn law_query_takes_the_room_of_its_pairs(
    pairs: Seq<(Seq<char>, Seq<char>)>,
    name: Seq<char>,
    value: Seq<char>,
)
    ensures
        outside::query_len(pairs.push((name, value))) == outside::query_len(pairs)
            + outside::form_text_len(name) + outside::form_text_len(value) + 2,
        outside::query_len(Seq::empty()) == 0,
        (forall|i: int|
            0 <= i < value.len() ==> '0' <= #[trigger] value[i] <= '9' || 'a' <= value[i] <= 'z' || 'A'
                <= value[i] <= 'Z') ==> outside::form_text_len(value) == value.len(),
{
    assert(pairs.push((name, value)).drop_last() =~= pairs);
    if forall|i: int|
        0 <= i < value.len() ==> '0' <= #[trigger] value[i] <= '9' || 'a' <= value[i] <= 'z' || 'A'
            <= value[i] <= 'Z' {
        vstd::utf8::is_ascii_chars_encode_utf8(value);
        lemma_plain_bytes(vstd::utf8::encode_utf8(value));
    }
}

/// Bytes of letters and digits take one byte each.
proof fn lemma_plain_bytes(bytes: Seq<u8>)
    requires
        forall|i: int|
            0 <= i < bytes.len() ==> 48 <= #[trigger] bytes[i] <= 57 || 65 <= bytes[i] <= 90 || 97
                <= bytes[i] <= 122,
    ensures
        outside::form_len(bytes) == bytes.len(),
    decreases bytes.len(),
{
    if bytes.len() > 0 {
        let head = bytes.drop_last();
        assert(forall|i: int| 0 <= i < head.len() ==> #[trigger] head[i] == bytes[i]);
        assert(bytes[bytes.len() - 1] == bytes.last());
        lemma_plain_bytes(head);
    }
}

} // verus!
