//! Outbound email via Resend (https://resend.com).
//!
//! Secrets:
//! - `RESEND_API_KEY` - Resend API key
//! - `RESEND_EMAIL_SEND` - verified From address (e.g. `noreply@example.com`)
use crate::error::{AppError, Refusal};
use crate::json::{Fields, Json, JsonView};
use crate::{json, text};
use vstd::prelude::*;

verus! {

broadcast use {vstd::string::group_string_axioms, json::lemma_last_value_push};

/// Where emails are posted.
pub const RESEND_API_URL: &'static str = "https://api.resend.com/emails";

/// The secrets of outbound email.
#[derive(Debug)]
pub struct MailSettings {
    /// The secret `RESEND_API_KEY`.
    pub api_key: Option<String>,
    /// The secret `RESEND_EMAIL_SEND`.
    pub from: Option<String>,
}

/// A request that posts an email.
#[derive(Debug)]
pub struct MailRequest {
    pub url: String,
    /// The header `Content-Type`.
    pub content_type: String,
    /// The header `Authorization`.
    pub authorization: String,
    pub body: Json,
}

/// Whether an error says that the secret `name` is absent.
pub open spec fn lacks_secret(e: AppError, name: Seq<char>) -> bool {
    e matches AppError::BadRequest(Refusal::SecretMissing { name: n }) && n@ == name
}

/// A secret that must be there.
pub fn secret_string(secret: &Option<String>, name: &str) -> (r: Result<String, AppError>)
    ensures
        match *secret {
            Some(s) => r == Ok::<String, AppError>(s),
            None => r matches Err(e) && lacks_secret(e, name@),
        },
{
    match secret {
        Some(s) => Ok(s.clone()),
        None => Err(AppError::BadRequest(Refusal::SecretMissing { name: name.to_owned() })),
    }
}

/// A character as HTML shows it.
pub open spec fn escaped_char(c: char) -> Seq<char> {
    if c == '&' {
        "&amp;"@
    } else if c == '<' {
        "&lt;"@
    } else if c == '>' {
        "&gt;"@
    } else if c == '\n' {
        "<br/>"@
    } else {
        seq![c]
    }
}

/// A text as HTML shows it, character by character.
pub open spec fn escaped(s: Seq<char>) -> Seq<char>
    decreases s.len(),
{
    if s.len() == 0 {
        Seq::empty()
    } else {
        escaped(s.drop_last()) + escaped_char(s.last())
    }
}

/// Escapes a text for HTML, with its line ends as line breaks.
pub fn html_escape(s: &str) -> (r: String)
    ensures
        r@ == escaped(s@),
{
    let cs = text::chars_of(s);
    let mut out = String::new();
    let mut i: usize = 0;
    while i < cs.len()
        invariant
            cs@ == s@,
            i <= cs.len(),
            out@ == escaped(s@.take(i as int)),
        decreases cs.len() - i,
    {
        assert(s@.take(i + 1).drop_last() =~= s@.take(i as int));
        let c = cs[i];
        let ghost before = out@;
        if c == '&' {
            out.append("&amp;");
        } else if c == '<' {
            out.append("&lt;");
        } else if c == '>' {
            out.append("&gt;");
        } else if c == '\n' {
            out.append("<br/>");
        } else {
            out.push(c);
            assert(out@ =~= before + seq![c]);
        }
        i = i + 1;
    }
    assert(s@.take(i as int) =~= s@);
    out
}

/// The HTML of an email with this text.
pub open spec fn html_of(body: Seq<char>) -> Seq<char> {
    "<p>"@ + escaped(body) + "</p>"@
}

/// The document that is posted for an email.
pub open spec fn email_document(
    from: Seq<char>,
    to: Seq<char>,
    subject: Seq<char>,
    body: Seq<char>,
) -> JsonView {
    JsonView::Object(
        json::no_fields()
            .push(("from"@, JsonView::Text(from)))
            .push(("to"@, JsonView::Array(seq![JsonView::Text(to)])))
            .push(("subject"@, JsonView::Text(subject)))
            .push(("text"@, JsonView::Text(body)))
            .push(("html"@, JsonView::Text(html_of(body)))),
    )
}

/// Whether this is the request, or the error, for an email.
pub open spec fn posts(
    settings: MailSettings,
    to: Seq<char>,
    subject: Seq<char>,
    body: Seq<char>,
    r: Result<MailRequest, AppError>,
) -> bool {
    match (settings.api_key, settings.from) {
        (None, _) => r matches Err(e) && lacks_secret(e, "RESEND_API_KEY"@),
        (Some(_), None) => r matches Err(e) && lacks_secret(e, "RESEND_EMAIL_SEND"@),
        (Some(api_key), Some(from)) => {
            &&& r matches Ok(request)
            &&& request.url@ == RESEND_API_URL@
            &&& request.content_type@ == "application/json"@
            &&& request.authorization@ == "Bearer "@ + api_key@
            &&& request.body@ == email_document(from@, to, subject, body)
        },
    }
}

/// The request that sends a plain-text (and simple HTML) email.
pub fn send_email(settings: &MailSettings, to: &str, subject: &str, body: &str) -> (r: Result<
    MailRequest,
    AppError,
>)
    ensures
        posts(*settings, to@, subject@, body@, r),
{
    let api_key = match secret_string(&settings.api_key, "RESEND_API_KEY") {
        Ok(k) => k,
        Err(e) => return Err(e),
    };
    let from = match secret_string(&settings.from, "RESEND_EMAIL_SEND") {
        Ok(f) => f,
        Err(e) => return Err(e),
    };
    let mut html = "<p>".to_owned();
    html.append(html_escape(body).as_str());
    html.append("</p>");
    let mut recipients: Vec<Json> = Vec::new();
    recipients.push(json::text(to));
    assert(json::items_view(recipients@) =~= seq![JsonView::Text(to@)]);
    let document = Fields::new().with("from", json::text(from.as_str())).with(
        "to",
        json::array(recipients),
    ).with("subject", json::text(subject)).with("text", json::text(body)).with(
        "html",
        json::text(html.as_str()),
    ).object();
    Ok(
        MailRequest {
            url: RESEND_API_URL.to_owned(),
            content_type: "application/json".to_owned(),
            authorization: text::join("Bearer ", api_key.as_str()),
            body: document,
        },
    )
}

/// What the status of the answer says of an email: it was sent, or it was not.
pub fn sent_status(status: u16) -> (r: Result<(), AppError>)
    ensures
        200 <= status < 300 ==> r == Ok::<(), AppError>(()),
        !(200 <= status < 300) ==> r == Err::<(), AppError>(
            AppError::BadRequest(Refusal::MailNotSent),
        ),
{
    if 200 <= status && status < 300 {
        Ok(())
    } else {
        Err(AppError::BadRequest(Refusal::MailNotSent))
    }
}

/// The text of the email that carries a code.
pub open spec fn token_text(token: Seq<char>) -> Seq<char> {
    "Your verification code is: "@ + token
        + "\n\nThis code expires in 10 minutes. If you did not attempt to sign in, you can ignore this email."@
}

/// The request that emails a code.
pub fn send_two_factor_token(settings: &MailSettings, to: &str, token: &str) -> (r: Result<
    MailRequest,
    AppError,
>)
    ensures
        posts(*settings, to@, "Your login verification code"@, token_text(token@), r),
{
    let mut body = "Your verification code is: ".to_owned();
    body.append(token);
    body.append(
        "\n\nThis code expires in 10 minutes. If you did not attempt to sign in, you can ignore this email.",
    );
    send_email(settings, to, "Your login verification code", body.as_str())
}

/// In a text without line ends, escaping leaves no angle bracket: nothing that a client wrote can
/// open or close a tag.
pub proof fn law_escaped_text_has_no_tags(s: Seq<char>)
    requires
        !s.contains('\n'),
    ensures
        !escaped(s).contains('<'),
        !escaped(s).contains('>'),
    decreases s.len(),
{
    if s.len() > 0 {
        let c = s.last();
        assert(s[s.len() - 1] == c);
        assert(!s.drop_last().contains('\n')) by {
            if s.drop_last().contains('\n') {
                let i = choose|i: int| 0 <= i < s.drop_last().len() && s.drop_last()[i] == '\n';
                assert(s[i] == '\n');
            }
        }
        law_escaped_text_has_no_tags(s.drop_last());
        reveal_strlit("&amp;");
        reveal_strlit("&lt;");
        reveal_strlit("&gt;");
        let head = escaped(s.drop_last());
        let tail = escaped_char(c);
        assert forall|i: int| 0 <= i < escaped(s).len() implies escaped(s)[i] != '<' && escaped(
            s,
        )[i] != '>' by {
            if i < head.len() {
                assert(escaped(s)[i] == head[i]);
                assert(head.contains(head[i]));
            } else {
                assert(escaped(s)[i] == tail[i - head.len()]);
            }
        }
    }
}

/// A text without the characters that HTML treats specially, and without line ends, is shown as it
/// is.
pub proof fn law_plain_text_is_kept(s: Seq<char>)
    requires
        forall|i: int|
            0 <= i < s.len() ==> (#[trigger] s[i]) != '&' && s[i] != '<' && s[i] != '>' && s[i]
                != '\n',
    ensures
        escaped(s) == s,
    decreases s.len(),
{
    if s.len() > 0 {
        assert forall|i: int| 0 <= i < s.drop_last().len() implies (#[trigger] s.drop_last()[i])
            != '&' && s.drop_last()[i] != '<' && s.drop_last()[i] != '>' && s.drop_last()[i]
            != '\n' by {
            assert(s.drop_last()[i] == s[i]);
        }
        law_plain_text_is_kept(s.drop_last());
        assert(s[s.len() - 1] == s.last());
        assert(s =~= s.drop_last() + seq![s.last()]);
    }
}

/// An email is posted to Resend under the API key, from the address that was set and to the address
/// that it is for and no other, with its subject and its text, and with the text as HTML. Without a
/// secret it is not posted, and the error names the secret, the API key first.
pub proof fn law_email_says_what_it_is_to(
    settings: MailSettings,
    to: Seq<char>,
    subject: Seq<char>,
    body: Seq<char>,
    r: Result<MailRequest, AppError>,
)
    requires
        posts(settings, to, subject, body, r),
    ensures
        settings.api_key is None ==> (r matches Err(
            AppError::BadRequest(Refusal::SecretMissing { name }),
        ) && name@ == "RESEND_API_KEY"@),
        settings.api_key is Some && settings.from is None ==> (r matches Err(
            AppError::BadRequest(Refusal::SecretMissing { name }),
        ) && name@ == "RESEND_EMAIL_SEND"@),
        settings.api_key is Some && settings.from is Some ==> {
            &&& r matches Ok(request)
            &&& request.url@ == "https://api.resend.com/emails"@
            &&& request.content_type@ == "application/json"@
            &&& request.authorization@ == "Bearer "@ + (settings.api_key->0)@
            &&& json::value_under(request.body@, "from"@) == Some(
                JsonView::Text((settings.from->0)@),
            )
            &&& json::value_under(request.body@, "to"@) matches Some(JsonView::Array(recipients))
                && recipients.len() == 1 && recipients[0] == JsonView::Text(to)
            &&& json::value_under(request.body@, "subject"@) == Some(JsonView::Text(subject))
            &&& json::value_under(request.body@, "text"@) == Some(JsonView::Text(body))
            &&& json::value_under(request.body@, "html"@) == Some(
                JsonView::Text("<p>"@ + escaped(body) + "</p>"@),
            )
        },
{
    reveal_strlit("from");
    reveal_strlit("to");
    reveal_strlit("subject");
    reveal_strlit("text");
    reveal_strlit("html");
    assert("from"@.len() == 4 && "to"@.len() == 2 && "subject"@.len() == 7 && "text"@.len() == 4
        && "html"@.len() == 4);
    assert("from"@[0] == 'f' && "text"@[0] == 't' && "html"@[0] == 'h');
}

/// The text of the email that carries a code holds the code as it is, and different codes make
/// different texts.
pub proof fn law_email_carries_its_code(token: Seq<char>, other: Seq<char>) -> (at: int)
    ensures
        0 <= at <= token_text(token).len() - token.len(),
        token_text(token).subrange(at, at + token.len()) == token,
        token_text(token) == token_text(other) ==> token == other,
{
    let at = "Your verification code is: "@.len() as int;
    assert(token_text(token).subrange(at, at + token.len()) =~= token);
    if token_text(token) == token_text(other) {
        assert(token_text(token).len() == token_text(other).len());
        assert(token_text(other).subrange(at, at + other.len()) =~= other);
    }
    at
}

/// A text is escaped piece by piece.
pub proof fn law_escaping_goes_by_pieces(a: Seq<char>, b: Seq<char>)
    ensures
        escaped(a + b) == escaped(a) + escaped(b),
    decreases b.len(),
{
    if b.len() == 0 {
        assert(a + b =~= a);
        assert(escaped(a) + escaped(b) =~= escaped(a));
    } else {
        law_escaping_goes_by_pieces(a, b.drop_last());
        assert((a + b).drop_last() =~= a + b.drop_last());
        assert(escaped(a) + (escaped(b.drop_last()) + escaped_char(b.last())) =~= escaped(a)
            + escaped(b.drop_last()) + escaped_char(b.last()));
    }
}

/// The characters that HTML treats specially are written as their entities, and a line end as a line
/// break.
pub proof fn law_special_characters_become_entities(s: Seq<char>)
    requires
        s.len() == 1,
    ensures
        s[0] == '&' ==> escaped(s) == "&amp;"@,
        s[0] == '<' ==> escaped(s) == "&lt;"@,
        s[0] == '>' ==> escaped(s) == "&gt;"@,
        s[0] == '\n' ==> escaped(s) == "<br/>"@,
        s[0] != '&' && s[0] != '<' && s[0] != '>' && s[0] != '\n' ==> escaped(s) == s,
{
    assert(s.drop_last() =~= Seq::<char>::empty());
    assert(escaped(s.drop_last()) =~= Seq::<char>::empty());
    assert(escaped(s) =~= escaped_char(s[0]));
    assert(seq![s[0]] =~= s);
}

/// The request that emails a code is to the address that it was asked for, and its text holds the code;
/// and an email counts as sent exactly where the status of the answer is one of success.
pub proof fn law_code_is_mailed_to_its_address(
    settings: MailSettings,
    to: &str,
    token: &str,
    r: Result<MailRequest, AppError>,
    status: u16,
    sent: Result<(), AppError>,
)
    requires
        call_ensures(send_two_factor_token, (&settings, to, token), r),
        call_ensures(sent_status, (status,), sent),
        settings.api_key is Some,
        settings.from is Some,
    ensures
        r matches Ok(request) && {
            &&& request.authorization@ == "Bearer "@ + (settings.api_key->0)@
            &&& json::value_under(request.body@, "to"@) matches Some(JsonView::Array(recipients))
                && recipients.len() == 1 && recipients[0] == JsonView::Text(to@)
            &&& json::value_under(request.body@, "text"@) matches Some(JsonView::Text(body))
                && body.len() >= 27 + token@.len() && body.subrange(27, 27 + token@.len() as int)
                == token@
        },
        sent is Ok <==> 200 <= status <= 299,
        sent matches Err(e) ==> e == AppError::BadRequest(Refusal::MailNotSent),
{
    reveal_strlit("Your verification code is: ");
    law_email_says_what_it_is_to(
        settings,
        to@,
        "Your login verification code"@,
        token_text(token@),
        r,
    );
    let at = law_email_carries_its_code(token@, token@);
    assert(token_text(token@).subrange(27, 27 + token@.len() as int) =~= token@);
}

} // verus!
