use warden_twofactor::security_headers::layers;

#[test]
fn responses_carry_four_security_headers() {
    let (a, b, c, d) = layers();
    assert_eq!(
        (a.name, a.value),
        ("strict-transport-security", "max-age=31536000; includeSubDomains")
    );
    assert_eq!((b.name, b.value), ("x-content-type-options", "nosniff"));
    assert_eq!((c.name, c.value), ("x-frame-options", "DENY"));
    assert_eq!((d.name, d.value), ("referrer-policy", "no-referrer"));
}
