use warden_twofactor::error::AppError;
use warden_twofactor::json::Json;
use warden_twofactor::mail::{
    html_escape, send_email, send_two_factor_token, sent_status, MailSettings,
};

fn settings() -> MailSettings {
    MailSettings { api_key: Some("key".to_string()), from: Some("noreply@example.com".to_string()) }
}

fn entry<'a>(j: &'a Json, name: &str) -> &'a Json {
    match j {
        Json::Object(fields) => &fields.entries.iter().find(|e| e.0 == name).expect("field").1,
        _ => panic!("no object"),
    }
}

fn words(j: &Json) -> String {
    match j {
        Json::Text(t) => t.clone(),
        _ => panic!("no text"),
    }
}

#[test]
fn html_is_escaped_once() {
    assert_eq!(html_escape("a & b <c>\n&lt;"), "a &amp; b &lt;c&gt;<br/>&amp;lt;");
    assert_eq!(html_escape(""), "");
    assert_eq!(html_escape("plain"), "plain");
    let wild = "x<y>&\nz\"'";
    let std = wild
        .replace('&', "&amp;")
        .replace('<', "&lt;")
        .replace('>', "&gt;")
        .replace('\n', "<br/>");
    assert_eq!(html_escape(wild), std);
}

#[test]
fn emails_are_posted_with_text_and_html() {
    let request = send_email(&settings(), "to@example.com", "Subject", "a<b").unwrap();
    assert_eq!(request.url, "https://api.resend.com/emails");
    assert_eq!(request.content_type, "application/json");
    assert_eq!(request.authorization, "Bearer key");
    assert_eq!(words(entry(&request.body, "from")), "noreply@example.com");
    assert_eq!(words(entry(&request.body, "subject")), "Subject");
    assert_eq!(words(entry(&request.body, "text")), "a<b");
    assert_eq!(words(entry(&request.body, "html")), "<p>a&lt;b</p>");
    match entry(&request.body, "to") {
        Json::Array(items) => {
            assert_eq!(items.len(), 1);
            assert_eq!(words(&items[0]), "to@example.com");
        }
        _ => panic!("no array"),
    }
}

#[test]
fn missing_secrets_are_named() {
    let mut s = settings();
    s.from = None;
    match send_email(&s, "to", "s", "t") {
        Err(AppError::BadRequest(why)) => assert_eq!(
            why.message(),
            "Missing Worker secret `RESEND_EMAIL_SEND`. Set it with `wrangler secret put RESEND_EMAIL_SEND`."
        ),
        _ => panic!("sent"),
    }
    s.api_key = None;
    match send_email(&s, "to", "s", "t") {
        Err(AppError::BadRequest(why)) => assert_eq!(
            why.message(),
            "Missing Worker secret `RESEND_API_KEY`. Set it with `wrangler secret put RESEND_API_KEY`."
        ),
        _ => panic!("sent"),
    }
}

#[test]
fn codes_are_emailed_in_words() {
    let request = send_two_factor_token(&settings(), "to@example.com", "123456").unwrap();
    assert_eq!(words(entry(&request.body, "subject")), "Your login verification code");
    assert_eq!(
        words(entry(&request.body, "text")),
        "Your verification code is: 123456\n\nThis code expires in 10 minutes. If you did not attempt to sign in, you can ignore this email."
    );
    assert_eq!(
        words(entry(&request.body, "html")),
        "<p>Your verification code is: 123456<br/><br/>This code expires in 10 minutes. If you did not attempt to sign in, you can ignore this email.</p>"
    );
}

#[test]
fn only_success_counts_as_sent() {
    assert!(sent_status(200).is_ok());
    assert!(sent_status(299).is_ok());
    for status in [0, 199, 300, 404, 500, 65535] {
        match sent_status(status) {
            Err(AppError::BadRequest(why)) => assert!(why.message().starts_with("Failed to send email.")),
            _ => panic!("sent"),
        }
    }
}
