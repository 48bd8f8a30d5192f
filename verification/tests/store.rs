use warden_twofactor::models::twofactor::{TwoFactor, TwoFactorType};
use warden_twofactor::store::{Param, Query, Write};

fn shown(params: Vec<Param>) -> Vec<String> {
    params
        .iter()
        .map(|p| match p {
            Param::Text(t) => format!("'{}'", t),
            Param::Int(i) => format!("{}", i),
        })
        .collect()
}

#[test]
fn queries_bind_their_parameters() {
    let q = Query::TwoFactorOfType { user_id: "u".to_string(), atype: 7 };
    assert_eq!(q.sql(), "SELECT * FROM twofactor WHERE user_uuid = ?1 AND atype = ?2");
    assert_eq!(shown(q.params()), vec!["'u'", "7"]);
    let q = Query::Providers { user_id: "u".to_string() };
    assert_eq!(
        q.sql(),
        "SELECT * FROM twofactor WHERE user_uuid = ?1 AND atype < 1000 AND atype != ?2"
    );
    assert_eq!(shown(q.params()), vec!["'u'", "5"]);
    let q = Query::User { id: "u".to_string() };
    assert_eq!(q.sql(), "SELECT * FROM users WHERE id = ?1");
    assert_eq!(shown(q.params()), vec!["'u'"]);
    let q = Query::TwoFactors { user_id: "u".to_string() };
    assert_eq!(q.sql(), "SELECT * FROM twofactor WHERE user_uuid = ?1 AND atype < 1000");
    assert_eq!(shown(q.params()), vec!["'u'"]);
    let q = Query::RecoveryCode { user_id: "u".to_string() };
    assert_eq!(q.sql(), "SELECT totp_recover FROM users WHERE id = ?1");
    assert_eq!(shown(q.params()), vec!["'u'"]);
}

#[test]
fn writes_bind_their_parameters() {
    let u = || "u".to_string();
    let w = Write::DeleteTypes { user_id: u(), first: 0, second: 5 };
    assert_eq!(w.sql(), "DELETE FROM twofactor WHERE user_uuid = ?1 AND atype IN (?2, ?3)");
    assert_eq!(shown(w.params()), vec!["'u'", "0", "5"]);
    let w = Write::DeleteType { user_id: u(), atype: 7 };
    assert_eq!(w.sql(), "DELETE FROM twofactor WHERE user_uuid = ?1 AND atype = ?2");
    assert_eq!(shown(w.params()), vec!["'u'", "7"]);
    let w = Write::DeleteRow { uuid: u() };
    assert_eq!(w.sql(), "DELETE FROM twofactor WHERE uuid = ?1");
    assert_eq!(shown(w.params()), vec!["'u'"]);
    let w = Write::SetTypeAndData { uuid: u(), atype: 1, data: "d".to_string() };
    assert_eq!(
        w.sql(),
        "UPDATE twofactor SET atype = ?1, data = ?2, last_used = 0 WHERE uuid = ?3"
    );
    assert_eq!(shown(w.params()), vec!["1", "'d'", "'u'"]);
    let w = Write::SetData { uuid: u(), data: "d".to_string() };
    assert_eq!(w.sql(), "UPDATE twofactor SET data = ?1 WHERE uuid = ?2");
    assert_eq!(shown(w.params()), vec!["'d'", "'u'"]);
    let w = Write::SetRecovery { user_id: u(), code: "c".to_string() };
    assert_eq!(w.sql(), "UPDATE users SET totp_recover = ?1 WHERE id = ?2");
    assert_eq!(shown(w.params()), vec!["'c'", "'u'"]);
    let w = Write::ClearRecovery { user_id: u() };
    assert_eq!(w.sql(), "UPDATE users SET totp_recover = NULL WHERE id = ?1");
    assert_eq!(shown(w.params()), vec!["'u'"]);
}

#[test]
fn inserts_bind_every_column() {
    let mut row = TwoFactor::new("u".to_string(), TwoFactorType::Webauthn, "d".to_string()).unwrap();
    row.last_used = 9;
    let uuid = row.uuid.clone();
    let w = Write::Insert { row };
    assert_eq!(
        w.sql(),
        "INSERT INTO twofactor (uuid, user_uuid, atype, enabled, data, last_used) VALUES (?1, ?2, ?3, ?4, ?5, ?6)"
    );
    let quoted = format!("'{}'", uuid);
    assert_eq!(
        shown(w.params()),
        vec![quoted, "'u'".to_string(), "7".to_string(), "1".to_string(), "'d'".to_string(), "9".to_string()]
    );
}
