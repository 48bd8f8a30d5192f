use warden_twofactor::error::AppError;
use warden_twofactor::json::Json;
use warden_twofactor::models::twofactor::{
    bool_from_int, bool_to_int, EmailTokenData, EnableYubikeyData, NumberOrString, TwoFactor,
    TwoFactorType, YubikeyMetadata,
};

fn email_data() -> EmailTokenData {
    EmailTokenData::issued_at("a@b".to_string(), "123456".to_string(), 1000)
}

#[test]
fn type_numbers_round_trip() {
    let numbers = vec![0, 1, 2, 3, 4, 5, 6, 7, 8, 1000, 1003, 1004];
    for n in &numbers {
        assert_eq!(TwoFactorType::from_i32(*n).unwrap().to_i32(), *n);
    }
    let mut n: i32 = -5;
    while n < 2000 {
        assert_eq!(TwoFactorType::from_i32(n).is_some(), numbers.contains(&n));
        n += 1;
    }
    assert_eq!(TwoFactorType::from_i32(7), Some(TwoFactorType::Webauthn));
    assert_eq!(TwoFactorType::from_i32(1001), None);
}

#[test]
fn slot_ids_are_numbers_in_either_form() {
    assert_eq!(NumberOrString::Number(5).into_i32().unwrap(), 5);
    assert_eq!(NumberOrString::String("5".to_string()).into_i32().unwrap(), 5);
    assert_eq!(NumberOrString::Number(-2147483648).into_i32().unwrap(), i32::MIN);
    let bad = vec![
        NumberOrString::Number(2147483648),
        NumberOrString::Number(-2147483649),
        NumberOrString::String("five".to_string()),
        NumberOrString::String(" 5".to_string()),
        NumberOrString::String(String::new()),
    ];
    for b in bad {
        match b.into_i32() {
            Err(AppError::BadRequest(why)) => assert_eq!(why.message(), "Invalid WebAuthn key id"),
            _ => panic!("accepted"),
        }
    }
}

#[test]
fn email_tokens_are_issued_and_withdrawn() {
    assert_eq!(EmailTokenData::TOKEN_DIGITS, 6);
    assert_eq!(EmailTokenData::EXPIRATION_SECS, 600);
    assert_eq!(EmailTokenData::ATTEMPTS_LIMIT, 3);
    let mut data = email_data();
    assert_eq!(data.last_token, Some("123456".to_string()));
    assert_eq!(data.token_sent, 1000);
    assert_eq!(data.attempts, 0);
    data.add_attempt();
    data.add_attempt();
    assert_eq!(data.attempts, 2);
    data.reissue_at("654321".to_string(), 2000);
    assert_eq!(data.last_token, Some("654321".to_string()));
    assert_eq!(data.token_sent, 2000);
    assert_eq!(data.attempts, 0);
    data.add_attempt();
    data.reset_token();
    assert_eq!(data.last_token, None);
    assert_eq!(data.attempts, 0);
    assert_eq!(data.token_sent, 2000);
    assert_eq!(data.email, "a@b");
}

#[test]
fn attempts_do_not_wrap() {
    let mut data = email_data();
    data.attempts = u64::MAX;
    data.add_attempt();
    assert_eq!(data.attempts, u64::MAX);
}

#[test]
fn tokens_carry_the_time() {
    let data = EmailTokenData::new("a@b".to_string(), "1".to_string());
    // 2020-01-01, which has passed.
    assert!(data.token_sent > 1_577_836_800);
    let mut old = email_data();
    old.set_token("2".to_string());
    assert!(old.token_sent >= data.token_sent);
    assert_eq!(old.last_token, Some("2".to_string()));
}

#[test]
fn new_records_are_enabled_under_a_fresh_uuid() {
    let row = TwoFactor::new("user".to_string(), TwoFactorType::YubiKey, "data".to_string()).unwrap();
    assert_eq!(row.user_uuid, "user");
    assert_eq!(row.atype, 3);
    assert!(row.enabled);
    assert_eq!(row.data, "data");
    assert_eq!(row.last_used, 0);
    assert_eq!(row.uuid.len(), 36);
    assert_eq!(row.uuid.as_bytes()[14], b'4');
    let parsed = uuid::Uuid::parse_str(&row.uuid).unwrap();
    assert_eq!(parsed.to_string(), row.uuid);
    let other = TwoFactor::new("user".to_string(), TwoFactorType::YubiKey, "data".to_string()).unwrap();
    assert_ne!(row.uuid, other.uuid);
}

#[test]
fn providers_show_type_and_state() {
    let mut row = TwoFactor::new("user".to_string(), TwoFactorType::Email, "data".to_string()).unwrap();
    row.enabled = false;
    match row.to_json_provider() {
        Json::Object(fields) => {
            let e = fields.entries;
            assert_eq!(e.len(), 3);
            assert!(e[0].0 == "enabled" && matches!(e[0].1, Json::Bool(false)));
            assert!(e[1].0 == "type" && matches!(e[1].1, Json::Int(1)));
            assert!(e[2].0 == "object");
            match &e[2].1 {
                Json::Text(t) => assert_eq!(t, "twoFactorProvider"),
                _ => panic!("no text"),
            }
        }
        _ => panic!("no object"),
    }
}

#[test]
fn truth_values_are_zero_and_one() {
    assert_eq!(bool_from_int(0), Some(false));
    assert_eq!(bool_from_int(1), Some(true));
    assert_eq!(bool_from_int(2), None);
    assert_eq!(bool_from_int(-1), None);
    assert_eq!(bool_from_int(bool_to_int(true)), Some(true));
    assert_eq!(bool_from_int(bool_to_int(false)), Some(false));
}

#[test]
fn otps_keep_their_order_without_empty_ones() {
    let data = EnableYubikeyData {
        key1: None,
        key2: Some("b".to_string()),
        key3: Some(String::new()),
        key4: Some(" ".to_string()),
        key5: Some("a".to_string()),
        nfc: true,
        master_password_hash: None,
        otp: None,
    };
    assert_eq!(data.otps(), vec!["b", " ", "a"]);
}

#[test]
fn copies_are_equal() {
    let data = email_data();
    let copy = data.clone();
    assert_eq!((copy.email, copy.last_token), (data.email, data.last_token));
    let meta = YubikeyMetadata { keys: vec!["a".to_string(), "b".to_string()], nfc: true };
    let copy = meta.clone();
    assert_eq!(copy.keys, meta.keys);
    assert!(copy.nfc);
    let row = TwoFactor::new("user".to_string(), TwoFactorType::Email, "data".to_string()).unwrap();
    let copy = row.clone();
    assert_eq!((copy.uuid, copy.atype, copy.data), (row.uuid, row.atype, row.data));
}

#[test]
fn records_are_made_under_a_uuid() {
    let made = |uuid: Option<&str>| {
        TwoFactor::under(
            uuid.map(|u| u.to_string()),
            "user".to_string(),
            TwoFactorType::Webauthn,
            "data".to_string(),
        )
    };
    let row = made(Some("id")).unwrap();
    assert_eq!((row.uuid.as_str(), row.user_uuid.as_str(), row.data.as_str()), ("id", "user", "data"));
    assert_eq!((row.atype, row.enabled, row.last_used), (7, true, 0));
    assert!(matches!(made(None), Err(AppError::Internal)));
}
