//! Requests about one-time codes sent by email.
use super::commit::commit;
use super::flow::{fail, reply, EmailFlow, Flow, Step, Upkeep};
use super::replies;
use crate::crypto::ct_eq;
use crate::error::{AppError, Refusal};
use crate::exchange::{Action, Event, Payload, Reply};
use crate::models::twofactor::{EmailTokenData, TwoFactor, TwoFactorType};
use crate::store::{Query, Write};
use crate::{handlers, outside, text};
use vstd::prelude::*;

verus! {

broadcast use vstd::string::group_string_axioms;

// ---------------------------------------------------------------------------------------------
// Judging codes
// ---------------------------------------------------------------------------------------------

/// An email address as it is compared and stored.
pub open spec fn plain_email(email: Seq<char>) -> Seq<char> {
    outside::lowercase_of(text::trimmed(email))
}

/// An email address as it is compared and stored: trimmed and in lower case.
pub fn normal_email(email: &str) -> (r: String)
    ensures
        r@ == plain_email(email@),
{
    text::trim(email).as_str().to_lowercase()
}

/// Accepts an address that has an `@`.
pub fn accept_email(email: String) -> (r: Result<String, AppError>)
    ensures
        r == if email@.contains('@') {
            Ok::<String, AppError>(email)
        } else {
            Err(AppError::BadRequest(Refusal::EmailInvalid))
        },
{
    if email.as_str().is_empty() || !text::has_char(email.as_str(), '@') {
        Err(AppError::BadRequest(Refusal::EmailInvalid))
    } else {
        Ok(email)
    }
}

/// What the data of a challenge becomes when its owner proves the address with a code.
pub open spec fn proven(data: EmailTokenData, token: Seq<char>, same_email: bool) -> Result<
    EmailTokenData,
    AppError,
> {
    match data.last_token {
        None => Err(AppError::BadRequest(Refusal::TokenMissing)),
        Some(issued) => if issued@ != text::trimmed(token) {
            Err(AppError::BadRequest(Refusal::TokenInvalid))
        } else if !same_email {
            Err(AppError::BadRequest(Refusal::EmailMismatch))
        } else {
            Ok(data.withdrawn())
        },
    }
}

/// Judges the code that proves an address, once it is known whether the address is the one of the
/// challenge.
pub fn prove_email(data: EmailTokenData, token: &str, same_email: bool) -> (r: Result<
    EmailTokenData,
    AppError,
>)
    ensures
        r == proven(data, token@, same_email),
{
    let mut data = data;
    match &data.last_token {
        None => {
            return Err(AppError::BadRequest(Refusal::TokenMissing));
        },
        Some(issued) => {
            if !ct_eq(issued.as_str(), text::trim(token).as_str()) {
                return Err(AppError::BadRequest(Refusal::TokenInvalid));
            }
        },
    }
    if !same_email {
        return Err(AppError::BadRequest(Refusal::EmailMismatch));
    }
    data.reset_token();
    Ok(data)
}

/// The data of a record after a wrong code: the attempt is counted, and the last one withdraws the
/// code that was sent.
pub open spec fn after_wrong_code(data: EmailTokenData) -> EmailTokenData {
    let attempts = if data.attempts == u64::MAX {
        u64::MAX
    } else {
        (data.attempts + 1) as u64
    };
    if attempts >= EmailTokenData::ATTEMPTS_LIMIT {
        data.withdrawn()
    } else {
        EmailTokenData { attempts, ..data }
    }
}

/// Whether a code that was sent is no longer good.
pub open spec fn expired(data: EmailTokenData, now: i64) -> bool {
    data.token_sent + EmailTokenData::EXPIRATION_SECS < now
}

/// What becomes of the data of a record, where it changes, and of the login, when a code is tried.
pub open spec fn code_outcome(data: EmailTokenData, token: Seq<char>, now: i64) -> (
    Option<EmailTokenData>,
    Result<Reply, AppError>,
) {
    match data.last_token {
        None => (None, Err(AppError::BadRequest(Refusal::TokenMissing))),
        Some(issued) => if issued@ != text::trimmed(token) {
            (Some(after_wrong_code(data)), Err(AppError::BadRequest(Refusal::TokenInvalid)))
        } else if expired(data, now) {
            (Some(data.withdrawn()), Err(AppError::BadRequest(Refusal::TokenExpired)))
        } else {
            (Some(data.withdrawn()), Ok(Reply::Done))
        },
    }
}

/// Judges a login code at `now`: the data to store, if it changes, and how the login ends.
pub fn judge_code(data: EmailTokenData, token: &str, now: i64) -> (r: (
    Option<EmailTokenData>,
    Result<Reply, AppError>,
))
    ensures
        r == code_outcome(data, token@, now),
{
    let mut data = data;
    let right = match &data.last_token {
        None => {
            return (None, Err(AppError::BadRequest(Refusal::TokenMissing)));
        },
        Some(issued) => ct_eq(issued.as_str(), text::trim(token).as_str()),
    };
    if !right {
        data.add_attempt();
        if data.attempts >= EmailTokenData::ATTEMPTS_LIMIT {
            data.reset_token();
        }
        return (Some(data), Err(AppError::BadRequest(Refusal::TokenInvalid)));
    }
    let good_until: i128 = data.token_sent as i128 + EmailTokenData::EXPIRATION_SECS as i128;
    data.reset_token();
    if good_until < now as i128 {
        (Some(data), Err(AppError::BadRequest(Refusal::TokenExpired)))
    } else {
        (Some(data), Ok(Reply::Done))
    }
}

// ---------------------------------------------------------------------------------------------
// Starting requests
// ---------------------------------------------------------------------------------------------

/// Asks for the record to show.
pub fn show(user_id: String) -> (out: Step)
    ensures
        out == Step::Ask(
            Flow::Email(EmailFlow::Showing),
            Action::Query(Query::TwoFactorOfType { user_id, atype: TwoFactorType::Email.code() }),
        ),
{
    Step::Ask(
        Flow::Email(EmailFlow::Showing),
        Action::Query(Query::TwoFactorOfType { user_id, atype: TwoFactorType::Email.to_i32() }),
    )
}

/// Whether this is how a code that proves an address is sent: the address must look like one, and
/// earlier records for email go first.
pub open spec fn sends(user_id: String, email: Seq<char>, out: Step) -> bool {
    if !plain_email(email).contains('@') {
        handlers::flow::fails(out, AppError::BadRequest(Refusal::EmailInvalid))
    } else {
        &&& out matches Step::Ask(
            Flow::Email(EmailFlow::Clearing { user_id: u, email: e }),
            Action::Write(write),
        )
        &&& u == user_id
        &&& e@ == plain_email(email)
        &&& write == (Write::DeleteTypes {
            user_id,
            first: TwoFactorType::Email.code(),
            second: TwoFactorType::EmailVerificationChallenge.code(),
        })
    }
}

/// Starts to send the code that proves an address.
pub fn send(user_id: String, email: &str) -> (out: Step)
    ensures
        sends(user_id, email@, out),
{
    match accept_email(normal_email(email)) {
        Err(e) => fail(e),
        Ok(email) => {
            let write = Write::DeleteTypes {
                user_id: user_id.clone(),
                first: TwoFactorType::Email.to_i32(),
                second: TwoFactorType::EmailVerificationChallenge.to_i32(),
            };
            Step::Ask(Flow::Email(EmailFlow::Clearing { user_id, email }), Action::Write(write))
        },
    }
}

/// Asks for the record of the code that proves an address.
pub fn prove(user_id: String, email: String, token: String) -> (out: Step)
    ensures
        out == Step::Ask(
            Flow::Email(EmailFlow::Proving { user_id, email, token }),
            Action::Query(
                Query::TwoFactorOfType {
                    user_id,
                    atype: TwoFactorType::EmailVerificationChallenge.code(),
                },
            ),
        ),
{
    let query = Query::TwoFactorOfType {
        user_id: user_id.clone(),
        atype: TwoFactorType::EmailVerificationChallenge.to_i32(),
    };
    Step::Ask(Flow::Email(EmailFlow::Proving { user_id, email, token }), Action::Query(query))
}

/// Starts to send a login code to a user who has Email 2FA.
pub fn send_login_email_token(user_id: String) -> (out: Step)
    ensures
        out == Step::Ask(
            Flow::Email(EmailFlow::LoginFinding),
            Action::Query(Query::TwoFactorOfType { user_id, atype: TwoFactorType::Email.code() }),
        ),
{
    Step::Ask(
        Flow::Email(EmailFlow::LoginFinding),
        Action::Query(Query::TwoFactorOfType { user_id, atype: TwoFactorType::Email.to_i32() }),
    )
}

/// Starts to validate an Email 2FA code during login, against the data of the user's record.
pub fn validate_email_login_code(user_id: String, token: String, data: String) -> (out: Step)
    ensures
        out == Step::Ask(
            Flow::Email(EmailFlow::CodeReading { user_id, token }),
            Action::ReadEmailToken { text: data },
        ),
{
    Step::Ask(
        Flow::Email(EmailFlow::CodeReading { user_id, token }),
        Action::ReadEmailToken { text: data },
    )
}

// ---------------------------------------------------------------------------------------------
// Going on
// ---------------------------------------------------------------------------------------------

/// Whether data issues a code for an address, at a time that the clock gave.
pub open spec fn issues(data: EmailTokenData, email: String, token: String) -> bool {
    &&& outside::clock_reading(data.token_sent)
    &&& data == (EmailTokenData {
        email,
        last_token: Some(token),
        token_sent: data.token_sent,
        attempts: 0,
    })
}

/// Whether this is what follows the data of a challenge.
pub open spec fn proves(
    data: Option<EmailTokenData>,
    user_id: String,
    uuid: String,
    email: Seq<char>,
    token: Seq<char>,
    out: Step,
) -> bool {
    match data {
        None => handlers::flow::fails(out, AppError::BadRequest(Refusal::EmailDataUnreadable)),
        Some(d) => match proven(d, token, plain_email(d.email@) == plain_email(email)) {
            Err(e) => handlers::flow::fails(out, e),
            Ok(after) => {
                &&& out matches Step::Ask(
                    Flow::Email(EmailFlow::Enabling { user_id: u, uuid: i, reply }),
                    Action::Encode(Payload::EmailToken(stored)),
                )
                &&& u == user_id
                &&& i == uuid
                &&& reply@ == replies::email_view(Some(d.email), true)
                &&& stored == after
            },
        },
    }
}

/// Judges the code that proves an address, and stores what is left of its data.
fn prove_data(
    data: Option<EmailTokenData>,
    user_id: String,
    uuid: String,
    email: &str,
    token: &str,
) -> (out: Step)
    ensures
        proves(data, user_id, uuid, email@, token@, out),
{
    let data = match data {
        None => return fail(AppError::BadRequest(Refusal::EmailDataUnreadable)),
        Some(data) => data,
    };
    let same = normal_email(data.email.as_str()) == normal_email(email);
    match prove_email(data, token, same) {
        Err(e) => fail(e),
        Ok(after) => {
            let shown = Some(after.email.clone());
            let reply = replies::email(&shown, true);
            Step::Ask(
                Flow::Email(EmailFlow::Enabling { user_id, uuid, reply }),
                Action::Encode(Payload::EmailToken(after)),
            )
        },
    }
}

/// Whether this is what follows a login code that was tried at `now`.
pub open spec fn tries(
    data: EmailTokenData,
    token: Seq<char>,
    now: i64,
    uuid: String,
    out: Step,
) -> bool {
    match code_outcome(data, token, now) {
        (None, end) => out == Step::Done(end),
        (Some(after), end) => out == Step::Ask(
            Flow::Email(EmailFlow::CodeStoring { uuid, end }),
            Action::Encode(Payload::EmailToken(after)),
        ),
    }
}

/// Tries a login code at `now`.
pub fn try_code(data: EmailTokenData, token: &str, now: i64, uuid: String) -> (out: Step)
    ensures
        tries(data, token@, now, uuid, out),
{
    match judge_code(data, token, now) {
        (None, end) => Step::Done(end),
        (Some(after), end) => Step::Ask(
            Flow::Email(EmailFlow::CodeStoring { uuid, end }),
            Action::Encode(Payload::EmailToken(after)),
        ),
    }
}

/// Whether this is how a code that proves an address is stored, in the record that was made for it,
/// and then sent.
pub open spec fn stores_challenge(
    made: Result<TwoFactor, AppError>,
    email: String,
    token: String,
    out: Step,
) -> bool {
    match made {
        Err(e) => handlers::flow::fails(out, e),
        Ok(row) => handlers::commit::commits(
            seq![Write::Insert { row }],
            Upkeep::Mail { to: email, token },
            Ok(Reply::Done),
            out,
        ),
    }
}

/// Stores a code that proves an address, and sends it.
pub fn store_challenge(made: Result<TwoFactor, AppError>, email: String, token: String) -> (out: Step)
    ensures
        stores_challenge(made, email, token, out),
{
    match made {
        Err(e) => fail(e),
        Ok(row) => commit(
            one(Write::Insert { row }),
            Upkeep::Mail { to: email, token },
            Ok(Reply::Done),
        ),
    }
}

/// Whether this is what follows an answer in a request about emailed codes. The clock decides when
/// a code was sent, and whether it has expired.
pub open spec fn email_next(state: EmailFlow, event: Event, out: Step) -> bool {
    match (state, event) {
        (EmailFlow::Showing, Event::Row(None)) => handlers::flow::replies(
            out,
            replies::email_view(None, false),
        ),
        (EmailFlow::Showing, Event::Row(Some(tf))) => out == Step::Ask(
            Flow::Email(EmailFlow::ShowingData),
            Action::ReadEmailToken { text: tf.data },
        ),
        (EmailFlow::ShowingData, Event::EmailToken(data)) => match data {
            None => handlers::flow::fails(out, AppError::BadRequest(Refusal::EmailDataUnreadable)),
            Some(d) => handlers::flow::replies(out, replies::email_view(Some(d.email), true)),
        },
        (EmailFlow::Clearing { user_id, email }, Event::Done) => out == Step::Ask(
            Flow::Email(EmailFlow::Issuing { user_id, email }),
            Action::NewEmailToken { digits: EmailTokenData::TOKEN_DIGITS },
        ),
        (EmailFlow::Issuing { user_id, email }, Event::Text(token)) => {
            &&& out matches Step::Ask(flow, Action::Encode(Payload::EmailToken(data)))
            &&& flow == Flow::Email(EmailFlow::Storing { user_id, email, token })
            &&& issues(data, email, token)
        },
        (EmailFlow::Storing { user_id, email, token }, Event::Text(data)) => exists|
            made: Result<TwoFactor, AppError>,
        |
            TwoFactor::is_made(
                made,
                user_id@,
                TwoFactorType::EmailVerificationChallenge,
                data@,
            ) && #[trigger] stores_challenge(made, email, token, out),
        (EmailFlow::Proving { user_id, email, token }, Event::Row(found)) => match found {
            None => handlers::flow::fails(
                out,
                AppError::BadRequest(Refusal::EmailChallengeMissing),
            ),
            Some(tf) => out == Step::Ask(
                Flow::Email(EmailFlow::ProvingData { user_id, uuid: tf.uuid, email, token }),
                Action::ReadEmailToken { text: tf.data },
            ),
        },
        (EmailFlow::ProvingData { user_id, uuid, email, token }, Event::EmailToken(data)) => proves(
            data,
            user_id,
            uuid,
            email@,
            token@,
            out,
        ),
        (EmailFlow::Enabling { user_id, uuid, reply }, Event::Text(data)) => {
            handlers::commit::commits(
                seq![
                    Write::SetTypeAndData { uuid, atype: TwoFactorType::Email.code(), data },
                ],
                Upkeep::IssueRecovery { user_id },
                Ok(Reply::Json(reply)),
                out,
            )
        },
        (EmailFlow::LoginFinding, Event::Row(found)) => match found {
            None => handlers::flow::fails(out, AppError::BadRequest(Refusal::EmailNotEnabled)),
            Some(tf) => out == Step::Ask(
                Flow::Email(EmailFlow::LoginReading { uuid: tf.uuid }),
                Action::ReadEmailToken { text: tf.data },
            ),
        },
        (EmailFlow::LoginReading { uuid }, Event::EmailToken(data)) => match data {
            None => handlers::flow::fails(out, AppError::BadRequest(Refusal::EmailDataUnreadable)),
            Some(data) => out == Step::Ask(
                Flow::Email(EmailFlow::LoginIssuing { uuid, data }),
                Action::NewEmailToken { digits: EmailTokenData::TOKEN_DIGITS },
            ),
        },
        (EmailFlow::LoginIssuing { uuid, data }, Event::Text(token)) => {
            &&& out matches Step::Ask(flow, Action::Encode(Payload::EmailToken(stored)))
            &&& flow == Flow::Email(EmailFlow::LoginStoring { uuid, to: data.email, token })
            &&& issues(stored, data.email, token)
        },
        (EmailFlow::LoginStoring { uuid, to, token }, Event::Text(data)) => {
            handlers::commit::commits(
                seq![Write::SetData { uuid, data }],
                Upkeep::Mail { to, token },
                Ok(Reply::Done),
                out,
            )
        },
        (EmailFlow::CodeReading { user_id, token }, Event::EmailToken(data)) => match data {
            None => handlers::flow::fails(out, AppError::BadRequest(Refusal::EmailDataUnreadable)),
            Some(data) => out == Step::Ask(
                Flow::Email(EmailFlow::CodeFinding { token, data }),
                Action::Query(
                    Query::TwoFactorOfType { user_id, atype: TwoFactorType::Email.code() },
                ),
            ),
        },
        (EmailFlow::CodeFinding { token, data }, Event::Row(found)) => match found {
            None => handlers::flow::fails(out, AppError::BadRequest(Refusal::EmailNotEnabled)),
            Some(tf) => exists|now: i64|
                outside::clock_reading(now) && #[trigger] tries(data, token@, now, tf.uuid, out),
        },
        (EmailFlow::CodeStoring { uuid, end }, Event::Text(data)) => handlers::commit::commits(
            seq![Write::SetData { uuid, data }],
            Upkeep::Nothing,
            end,
            out,
        ),
        _ => handlers::flow::fails(out, AppError::Internal),
    }
}

/// A list of one change.
fn one(write: Write) -> (r: Vec<Write>)
    ensures
        r@ == seq![write],
{
    let mut writes: Vec<Write> = Vec::new();
    writes.push(write);
    assert(writes@ =~= seq![write]);
    writes
}

/// What follows an answer in a request about emailed codes.
pub fn email_step(state: EmailFlow, event: Event) -> (out: Step)
    ensures
        email_next(state, event, out),
{
    match (state, event) {
        (EmailFlow::Showing, Event::Row(None)) => reply(replies::email(&None, false)),
        (EmailFlow::Showing, Event::Row(Some(tf))) => Step::Ask(
            Flow::Email(EmailFlow::ShowingData),
            Action::ReadEmailToken { text: tf.data },
        ),
        (EmailFlow::ShowingData, Event::EmailToken(data)) => match data {
            None => fail(AppError::BadRequest(Refusal::EmailDataUnreadable)),
            Some(d) => reply(replies::email(&Some(d.email), true)),
        },
        (EmailFlow::Clearing { user_id, email }, Event::Done) => Step::Ask(
            Flow::Email(EmailFlow::Issuing { user_id, email }),
            Action::NewEmailToken { digits: EmailTokenData::TOKEN_DIGITS },
        ),
        (EmailFlow::Issuing { user_id, email }, Event::Text(token)) => {
            let data = EmailTokenData::new(email.clone(), token.clone());
            Step::Ask(
                Flow::Email(EmailFlow::Storing { user_id, email, token }),
                Action::Encode(Payload::EmailToken(data)),
            )
        },
        (EmailFlow::Storing { user_id, email, token }, Event::Text(data)) => {
            let made = TwoFactor::new(user_id, TwoFactorType::EmailVerificationChallenge, data);
            let ghost row = made;
            let out = store_challenge(made, email, token);
            assert(stores_challenge(row, email, token, out));
            out
        },
        (EmailFlow::Proving { user_id, email, token }, Event::Row(found)) => match found {
            None => fail(AppError::BadRequest(Refusal::EmailChallengeMissing)),
            Some(tf) => Step::Ask(
                Flow::Email(EmailFlow::ProvingData { user_id, uuid: tf.uuid, email, token }),
                Action::ReadEmailToken { text: tf.data },
            ),
        },
        (EmailFlow::ProvingData { user_id, uuid, email, token }, Event::EmailToken(data)) => {
            prove_data(data, user_id, uuid, email.as_str(), token.as_str())
        },
        (EmailFlow::Enabling { user_id, uuid, reply }, Event::Text(data)) => commit(
            one(Write::SetTypeAndData { uuid, atype: TwoFactorType::Email.to_i32(), data }),
            Upkeep::IssueRecovery { user_id },
            Ok(Reply::Json(reply)),
        ),
        (EmailFlow::LoginFinding, Event::Row(found)) => match found {
            None => fail(AppError::BadRequest(Refusal::EmailNotEnabled)),
            Some(tf) => Step::Ask(
                Flow::Email(EmailFlow::LoginReading { uuid: tf.uuid }),
                Action::ReadEmailToken { text: tf.data },
            ),
        },
        (EmailFlow::LoginReading { uuid }, Event::EmailToken(data)) => match data {
            None => fail(AppError::BadRequest(Refusal::EmailDataUnreadable)),
            Some(data) => Step::Ask(
                Flow::Email(EmailFlow::LoginIssuing { uuid, data }),
                Action::NewEmailToken { digits: EmailTokenData::TOKEN_DIGITS },
            ),
        },
        (EmailFlow::LoginIssuing { uuid, data }, Event::Text(token)) => {
            let mut data = data;
            data.set_token(token.clone());
            let to = data.email.clone();
            Step::Ask(
                Flow::Email(EmailFlow::LoginStoring { uuid, to, token }),
                Action::Encode(Payload::EmailToken(data)),
            )
        },
        (EmailFlow::LoginStoring { uuid, to, token }, Event::Text(data)) => commit(
            one(Write::SetData { uuid, data }),
            Upkeep::Mail { to, token },
            Ok(Reply::Done),
        ),
        (EmailFlow::CodeReading { user_id, token }, Event::EmailToken(data)) => match data {
            None => fail(AppError::BadRequest(Refusal::EmailDataUnreadable)),
            Some(data) => Step::Ask(
                Flow::Email(EmailFlow::CodeFinding { token, data }),
                Action::Query(
                    Query::TwoFactorOfType { user_id, atype: TwoFactorType::Email.to_i32() },
                ),
            ),
        },
        (EmailFlow::CodeFinding { token, data }, Event::Row(found)) => match found {
            None => fail(AppError::BadRequest(Refusal::EmailNotEnabled)),
            Some(tf) => try_code(data, token.as_str(), outside::read_clock(), tf.uuid),
        },
        (EmailFlow::CodeStoring { uuid, end }, Event::Text(data)) => commit(
            one(Write::SetData { uuid, data }),
            Upkeep::Nothing,
            end,
        ),
        _ => fail(AppError::Internal),
    }
}

// ---------------------------------------------------------------------------------------------
// Laws
// ---------------------------------------------------------------------------------------------

/// A login code is accepted exactly where it is the one that was sent, white space around it aside,
/// and no more than ten minutes have passed.
pub proof fn law_code_is_accepted_in_time(data: EmailTokenData, token: Seq<char>, now: i64)
    ensures
        code_outcome(data, token, now).1 is Ok <==> (data.last_token matches Some(issued)
            && issued@ == text::trimmed(token) && now <= data.token_sent + 600),
{
}

/// A login code works once: whatever ends well leaves data under which every code is refused.
pub proof fn law_code_works_once(
    data: EmailTokenData,
    token: Seq<char>,
    now: i64,
    again: Seq<char>,
    later: i64,
)
    requires
        code_outcome(data, token, now).1 is Ok,
    ensures
        code_outcome(data, token, now).0 matches Some(after) && code_outcome(after, again, later).1
            == Err::<Reply, AppError>(AppError::BadRequest(Refusal::TokenMissing)),
{
}

/// The data of a record after `n` wrong codes.
pub open spec fn after_wrong_codes(data: EmailTokenData, n: nat) -> EmailTokenData
    decreases n,
{
    if n == 0 {
        data
    } else {
        after_wrong_code(after_wrong_codes(data, (n - 1) as nat))
    }
}

/// The third wrong code withdraws the code that was sent, and none before it does.
pub proof fn law_three_wrong_codes_withdraw_the_code(
    data: EmailTokenData,
    token: Seq<char>,
    now: i64,
)
    requires
        data.last_token is Some,
        data.attempts == 0,
    ensures
        after_wrong_codes(data, 1).last_token == data.last_token,
        after_wrong_codes(data, 2).last_token == data.last_token,
        after_wrong_codes(data, 3).last_token is None,
        code_outcome(after_wrong_codes(data, 3), token, now).1 == Err::<Reply, AppError>(
            AppError::BadRequest(Refusal::TokenMissing),
        ),
{
    reveal_with_fuel(after_wrong_codes, 4);
}

/// No attempt at a login code changes whose address it is or when the code was sent.
pub proof fn law_attempts_keep_the_address(data: EmailTokenData, token: Seq<char>, now: i64)
    ensures
        code_outcome(data, token, now).0 matches Some(after) ==> after.email == data.email
            && after.token_sent == data.token_sent,
{
}

/// An address is proven only with the code that was sent to it, and the code is then withdrawn.
pub proof fn law_proof_needs_code_and_address(
    data: EmailTokenData,
    token: Seq<char>,
    same_email: bool,
)
    ensures
        proven(data, token, same_email) is Ok <==> (data.last_token matches Some(issued)
            && issued@ == text::trimmed(token) && same_email),
        proven(data, token, same_email) matches Ok(after) ==> after.last_token is None
            && after.email == data.email,
{
}

/// A login asks for the email record of its user, and a code that is tried for the data that was given.
pub proof fn law_logins_ask_for_their_user(
    user_id: String,
    token: String,
    data: String,
    out: Step,
)
    ensures
        call_ensures(send_login_email_token, (user_id,), out) ==> out == Step::Ask(
            Flow::Email(EmailFlow::LoginFinding),
            Action::Query(Query::TwoFactorOfType { user_id, atype: 1 }),
        ),
        call_ensures(validate_email_login_code, (user_id, token, data), out) ==> out == Step::Ask(
            Flow::Email(EmailFlow::CodeReading { user_id, token }),
            Action::ReadEmailToken { text: data },
        ),
{
}

} // verus!
