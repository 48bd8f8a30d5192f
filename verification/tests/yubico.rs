use warden_twofactor::error::{AppError, Refusal};
use warden_twofactor::exchange::{Action, Event};
use warden_twofactor::yubico::{
    begin_check, begin_with_key, ensure_configured, fits_query, form_width_of, go_fetch, judge_answer,
    nonce_of, otp_step, parse_kv_body, random_nonce,
    read_answer, signing_key, signing_line, take_answer, url_of_request, verify_otp, verify_url,
    OtpAnswer, OtpCheck,
    OtpRequest, OtpStep, Setting, YubicoSettings,
};

const OTP: &str = "cccccckdvvulgjvtkjdhtlrbjjctggdihuevikehtlil";

fn set(value: &str) -> Setting {
    Setting { secret: Some(value.to_string()), variable: None }
}

fn unset() -> Setting {
    Setting { secret: None, variable: None }
}

fn settings() -> YubicoSettings {
    YubicoSettings { client_id: set("87"), secret_key: set("c2VjcmV0"), server: None }
}

fn request() -> OtpRequest {
    OtpRequest {
        client_id: "87".to_string(),
        secret: "c2VjcmV0".to_string(),
        nonce: "00112233445566778899aabbccddeeff".to_string(),
        otp: OTP.to_string(),
        base: "https://api.yubico.com/wsapi/2.0/verify".to_string(),
    }
}

fn words(e: AppError) -> String {
    match e {
        AppError::BadRequest(why) => why.message(),
        _ => panic!("another error"),
    }
}

fn body(h: &str, status: &str) -> String {
    format!(
        "h={}\r\nt=2026\r\notp={}\r\nnonce=00112233445566778899aabbccddeeff\r\nstatus={}\r\n\r\n",
        h, OTP, status
    )
}

#[test]
fn secrets_come_before_variables() {
    assert!(ensure_configured(&settings()).is_ok());
    let mut s = settings();
    s.client_id = Setting { secret: None, variable: Some("12".to_string()) };
    assert!(ensure_configured(&s).is_ok());
    s.client_id = unset();
    assert_eq!(
        words(ensure_configured(&s).unwrap_err()),
        "Missing `YUBICO_CLIENT_ID`. Set it as a Worker secret (or variable)."
    );
    let mut s = settings();
    s.secret_key = unset();
    assert_eq!(
        words(ensure_configured(&s).unwrap_err()),
        "Missing `YUBICO_SECRET_KEY`. Set it as a Worker secret (or variable)."
    );
    let mut s = settings();
    s.client_id.variable = Some("other".to_string());
    match verify_otp(&s, OTP) {
        OtpStep::Ask(OtpCheck::SigningRequest { request }, _) => assert_eq!(request.client_id, "87"),
        _ => panic!("not signed"),
    }
}

#[test]
fn server_may_be_set() {
    assert_eq!(verify_url(&None), "https://api.yubico.com/wsapi/2.0/verify");
    assert_eq!(verify_url(&Some("  ".to_string())), "https://api.yubico.com/wsapi/2.0/verify");
    assert_eq!(verify_url(&Some("https://own/verify".to_string())), "https://own/verify");
}

#[test]
fn nonces_are_fresh_and_hexadecimal() {
    let a = random_nonce().unwrap();
    let b = random_nonce().unwrap();
    assert_ne!(a, b);
    assert_eq!(a.len(), 32);
    assert!(a.chars().all(|c| c.is_ascii_digit() || ('a'..='f').contains(&c)));
    assert_eq!(hex::decode(&a).unwrap().len(), 16);
}

#[test]
fn nonce_is_the_writing_of_its_bytes() {
    assert_eq!(nonce_of(Some(vec![0, 0x1f, 0xa0, 0xff])).unwrap(), "001fa0ff");
    assert_eq!(nonce_of(Some(vec![])).unwrap(), "");
    assert!(matches!(nonce_of(None), Err(AppError::Internal)));
}

#[test]
fn parameters_are_signed_in_order_of_name() {
    let p = |k: &str, v: &str| (k.to_string(), v.to_string());
    assert_eq!(
        signing_line(vec![p("otp", "x"), p("id", "1"), p("nonce", "n")]),
        "id=1&nonce=n&otp=x"
    );
    assert_eq!(signing_line(vec![p("b", "1"), p("a", ""), p("b", "2")]), "a=&b=1&b=2");
    assert_eq!(signing_line(vec![]), "");
}

#[test]
fn api_key_is_base64() {
    assert_eq!(signing_key(" c2VjcmV0 \n").unwrap(), b"secret".to_vec());
    assert_eq!(signing_key("no base64!"), None);
    // The URL-safe alphabet is another one.
    assert_eq!(signing_key("-_8="), None);
    assert_eq!(signing_key("+/8="), Some(vec![0xfb, 0xff]));
}

#[test]
fn answers_are_names_and_values() {
    let fields = parse_kv_body("a=1\r\n\n  b = 2=3 \nnothing\n=x\n");
    let p = |k: &str, v: &str| (k.to_string(), v.to_string());
    assert_eq!(fields, vec![p("a", "1"), p("b ", " 2=3"), p("", "x")]);
    assert_eq!(parse_kv_body(""), vec![]);
}

#[test]
fn answer_is_read_with_all_its_fields() {
    let answer = read_answer(200, &body("sig=", "OK")).unwrap();
    assert_eq!(answer.h, "sig=");
    assert_eq!(answer.status, "OK");
    assert_eq!(answer.otp, OTP);
    assert_eq!(answer.nonce, "00112233445566778899aabbccddeeff");
    let names: Vec<&str> = answer.signed.iter().map(|f| f.0.as_str()).collect();
    assert_eq!(names, vec!["t", "otp", "nonce", "status"]);
    let bare = read_answer(200, "h=x\nstatus=BAD_SIGNATURE").unwrap();
    assert_eq!((bare.otp.as_str(), bare.nonce.as_str()), ("", ""));
}

#[test]
fn answer_faults() {
    assert_eq!(
        words(read_answer(503, &body("x", "OK")).unwrap_err()),
        "Failed to verify Yubikey OTP against YubiCloud"
    );
    assert_eq!(words(read_answer(200, "status=OK").unwrap_err()), "Invalid YubiCloud response");
    assert_eq!(words(read_answer(200, "h=x").unwrap_err()), "Invalid YubiCloud response");
}

#[test]
fn verdicts_follow_the_answer() {
    let answer = |status: &str| OtpAnswer {
        h: "sig".to_string(),
        status: status.to_string(),
        otp: "otp".to_string(),
        nonce: "nonce".to_string(),
        signed: vec![],
    };
    assert!(judge_answer(&answer("OK"), "otp", "nonce", "sig").is_ok());
    let judged = |a: &OtpAnswer, otp: &str, nonce: &str, h: &str| {
        words(judge_answer(a, otp, nonce, h).unwrap_err())
    };
    assert_eq!(
        judged(&answer("OK"), "otp", "nonce", "other"),
        "YubiCloud response signature mismatch"
    );
    assert_eq!(
        judged(&answer("OK"), "another", "nonce", "sig"),
        "YubiCloud response did not match request"
    );
    assert_eq!(
        judged(&answer("OK"), "otp", "another", "sig"),
        "YubiCloud response did not match request"
    );
    assert_eq!(judged(&answer("REPLAYED_OTP"), "otp", "nonce", "sig"), "Yubikey OTP already used");
    assert_eq!(judged(&answer("BAD_OTP"), "otp", "nonce", "sig"), "Invalid Yubikey OTP provided");
    assert_eq!(
        judged(&answer("NO_SUCH_CLIENT"), "otp", "nonce", "sig"),
        "YUBICO_CLIENT_ID is not recognized by YubiCloud"
    );
    assert_eq!(
        judged(&answer("BACKEND_ERROR"), "otp", "nonce", "sig"),
        "Yubikey verification failed (BACKEND_ERROR)"
    );
}

#[test]
fn otp_must_have_its_length() {
    match verify_otp(&settings(), "short") {
        OtpStep::Done(Err(e)) => assert_eq!(words(e), "Invalid Yubikey OTP length"),
        _ => panic!("accepted"),
    }
}

#[test]
fn otp_is_verified_in_three_steps() {
    let check = match begin_check(request()) {
        OtpStep::Ask(check, Action::HmacSha1 { secret, message }) => {
            assert_eq!(secret, b"secret".to_vec());
            assert_eq!(
                message,
                format!("id=87&nonce=00112233445566778899aabbccddeeff&otp={}", OTP)
            );
            check
        }
        _ => panic!("not signed"),
    };
    let check = match otp_step(check, Event::Bytes(vec![0xfb, 0xff])) {
        OtpStep::Ask(check, Action::Fetch { url }) => {
            assert_eq!(
                url,
                format!(
                    "https://api.yubico.com/wsapi/2.0/verify?id=87&otp={}&nonce=00112233445566778899aabbccddeeff&h=%2B%2F8%3D",
                    OTP
                )
            );
            check
        }
        _ => panic!("not fetched"),
    };
    let answered = Event::Answer { status: 200, body: body("AQID", "OK") };
    let check = match otp_step(check, answered) {
        OtpStep::Ask(check, Action::HmacSha1 { secret, message }) => {
            assert_eq!(secret, b"secret".to_vec());
            assert_eq!(
                message,
                format!(
                    "nonce=00112233445566778899aabbccddeeff&otp={}&status=OK&t=2026",
                    OTP
                )
            );
            check
        }
        _ => panic!("not signed"),
    };
    assert!(matches!(otp_step(check, Event::Bytes(vec![1, 2, 3])), OtpStep::Done(Ok(()))));
}

#[test]
fn forged_answers_are_refused() {
    let answer = read_answer(200, &body("AQID", "OK")).unwrap();
    let check = OtpCheck::SigningAnswer { request: request(), answer };
    match otp_step(check, Event::Bytes(vec![1, 2, 4])) {
        OtpStep::Done(Err(e)) => assert_eq!(words(e), "YubiCloud response signature mismatch"),
        _ => panic!("accepted"),
    }
}

#[test]
fn otp_verification_fails_with_what_it_needs() {
    let mut r = request();
    r.secret = "!".to_string();
    match begin_check(r) {
        OtpStep::Done(Err(e)) => {
            assert_eq!(words(e), "Invalid YUBICO_SECRET_KEY (expected base64)")
        }
        _ => panic!("begun"),
    }
    let mut r = request();
    r.base = "no url".to_string();
    assert!(matches!(
        otp_step(OtpCheck::SigningRequest { request: r }, Event::Bytes(vec![])),
        OtpStep::Done(Err(AppError::Internal))
    ));
    let failed = Event::Failed(AppError::BadRequest(Refusal::Other { message: "no net".to_string() }));
    match otp_step(OtpCheck::Fetching { request: request() }, failed) {
        OtpStep::Done(Err(e)) => assert_eq!(words(e), "no net"),
        _ => panic!("went on"),
    }
    assert!(matches!(
        otp_step(OtpCheck::Fetching { request: request() }, Event::Done),
        OtpStep::Done(Err(AppError::Internal))
    ));
}

#[test]
fn query_of_the_base_is_replaced() {
    let mut r = request();
    r.base = "https://own.example/verify?x=1#frag".to_string();
    match otp_step(OtpCheck::SigningRequest { request: r }, Event::Bytes(vec![])) {
        OtpStep::Ask(_, Action::Fetch { url }) => {
            assert!(url.starts_with("https://own.example/verify?id=87&otp="));
            assert!(url.ends_with("&h=#frag"));
            assert!(!url.contains("x=1"));
        }
        _ => panic!("not fetched"),
    }
}

#[test]
fn steps_take_what_was_read() {
    match begin_with_key(request(), None) {
        OtpStep::Done(Err(e)) => {
            assert_eq!(words(e), "Invalid YUBICO_SECRET_KEY (expected base64)")
        }
        _ => panic!("begun"),
    }
    assert!(matches!(
        begin_with_key(request(), Some(vec![7])),
        OtpStep::Ask(OtpCheck::SigningRequest { .. }, Action::HmacSha1 { .. })
    ));
    assert!(matches!(go_fetch(request(), None), OtpStep::Done(Err(AppError::Internal))));
    match go_fetch(request(), Some("https://own/".to_string())) {
        OtpStep::Ask(_, Action::Fetch { url }) => assert_eq!(url, "https://own/"),
        _ => panic!("not fetched"),
    }
    match take_answer(request(), 200, "h=x\nb=2\nstatus=OK\na=1", Some(vec![7])) {
        OtpStep::Ask(_, Action::HmacSha1 { secret, message }) => {
            assert_eq!(secret, vec![7]);
            assert_eq!(message, "a=1&b=2&status=OK");
        }
        _ => panic!("not signed"),
    }
    assert!(matches!(
        take_answer(request(), 200, "h=x\nstatus=OK", None),
        OtpStep::Done(Err(AppError::BadRequest(Refusal::YubicoSecretNotBase64)))
    ));
    assert!(matches!(
        take_answer(request(), 200, "h=x", None),
        OtpStep::Done(Err(AppError::BadRequest(Refusal::YubicoResponseInvalid)))
    ));
}

#[test]
fn request_url_needs_a_base() {
    let mut r = request();
    assert!(url_of_request(&r, "AA==").unwrap().ends_with("&h=AA%3D%3D"));
    r.client_id = "8".repeat(0x100_0001);
    assert!(url_of_request(&r, "AA==").unwrap().len() > 0x100_0001);
    r.base = "not a url".to_string();
    assert!(url_of_request(&r, "AA==").is_none());
    let pairs = vec![("id".to_string(), "87".to_string())];
    assert!(fits_query("https://own/", &pairs));
    assert!(fits_query("https://own/path?old=1#part", &pairs));
}

#[test]
fn texts_widen_where_they_are_encoded() {
    assert_eq!(form_width_of(""), 0);
    assert_eq!(form_width_of("azAZ09 *-._"), 11);
    assert_eq!(form_width_of("=&+/~"), 15);
    assert_eq!(form_width_of("\u{e9}"), 6);
    let mut r = request();
    r.base = "https://own.example/verify?old=1#part".to_string();
    r.client_id = "a b+\u{e9}~*".to_string();
    let url = url_of_request(&r, "AA==").unwrap();
    let mut expected = "https://own.example/verify".len() as u128 + "#part".len() as u128;
    for t in ["id", r.client_id.as_str(), "otp", OTP, "nonce", r.nonce.as_str(), "h", "AA=="] {
        expected += form_width_of(t) + 1;
    }
    assert_eq!(url.len() as u128, expected);
}

#[test]
fn order_of_parameters_does_not_matter() {
    let p = |k: &str, v: &str| (k.to_string(), v.to_string());
    assert_eq!(
        signing_line(vec![p("a", "1"), p("b", "2"), p("c", "3")]),
        signing_line(vec![p("c", "3"), p("a", "1"), p("b", "2")])
    );
}
