use gem_finder::session::{admin_claim, admin_from_member, auth_from_stored};

#[test]
fn admin_claims() {
    assert!(admin_claim(r#"{"sub":"u","is_admin":true}"#));
    assert!(!admin_claim(r#"{"sub":"u","is_admin":false}"#));
    assert!(!admin_claim(r#"{"sub":"u"}"#));
    assert!(!admin_claim(r#"{"is_admin":"true"}"#));
    assert!(!admin_claim("not json"));
}

#[test]
fn restored_sessions() {
    let s = |v: &str| Some(v.to_string());
    let a = auth_from_stored(s("t"), s("u"), s("e@x.io"), None, true).unwrap();
    assert_eq!(a.token, "t");
    assert!(a.is_admin);
    assert!(auth_from_stored(s(""), s("u"), s("e"), None, false).is_none());
    assert!(auth_from_stored(s("t"), None, s("e"), None, false).is_none());
}

#[test]
fn admin_member_values() {
    assert!(admin_from_member(Some(true)));
    assert!(!admin_from_member(Some(false)));
    assert!(!admin_from_member(None));
}
