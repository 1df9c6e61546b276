use gem_finder::auth::{
    admit_attempt, admit_link_request, admit_token_use, bearer_token, is_admin_email, on_admin_list,
    is_valid_email, is_valid_email_client, link_mail_body, link_mail_subject, magic_link_url,
    normalize_email, smtp_implicit_tls, smtp_port, validate_request_origin, AuthRejection, Claims,
    SignInRefusal, JWT_EXPIRY_SECS,
};
use gem_finder::ratelimit::RateLimiter;

#[test]
fn server_email_check() {
    assert!(is_valid_email("ana@example.com"));
    assert!(is_valid_email("a@b.co"));
    assert!(!is_valid_email("ana.example.com"));
    assert!(!is_valid_email("@example.com"));
    assert!(!is_valid_email("ana@"));
    assert!(!is_valid_email("ana@example"));
    assert!(!is_valid_email("ana@.com"));
    assert!(!is_valid_email("ana@example."));
    assert!(!is_valid_email("ana@example.c"));
    assert!(!is_valid_email("an..a@example.com"));
    assert!(!is_valid_email("ana@exa..mple.com"));
    assert!(!is_valid_email("a@b@c.com"));
}

#[test]
fn client_email_check() {
    assert!(is_valid_email_client("ana@example.com"));
    assert!(is_valid_email_client("an..a@example.com"));
    assert!(!is_valid_email_client("@example.com"));
    assert!(!is_valid_email_client("ana@example.c"));
}

#[test]
fn email_normalization() {
    assert_eq!(normalize_email("  Ana@Example.COM \n"), "ana@example.com");
    let admins = vec!["ana@example.com".to_string()];
    assert!(is_admin_email(&admins, "ANA@example.com"));
    assert!(!is_admin_email(&admins, "bob@example.com"));
}

#[test]
fn bearer_tokens() {
    assert_eq!(bearer_token(Some("Bearer abc.def")), Ok("abc.def".to_string()));
    assert_eq!(bearer_token(None), Err(AuthRejection::MissingHeader));
    assert_eq!(bearer_token(Some("Token abc")), Err(AuthRejection::NotBearer));
}

#[test]
fn session_claims() {
    let c = Claims::for_session("u1", "a@b.co", None, true, 1000);
    assert_eq!(c.exp, 1000 + JWT_EXPIRY_SECS as usize);
    assert_eq!(c.iat, 1000);
    assert!(c.is_admin);
    assert_eq!(JWT_EXPIRY_SECS, 30 * 24 * 3600);
}

#[test]
fn origin_allow_list() {
    assert_eq!(
        validate_request_origin(" https://gems.example/ ", "https://gems.example, https://x.y/"),
        Some("https://gems.example".to_string())
    );
    assert_eq!(validate_request_origin("https://evil.example", "https://gems.example"), None);
    assert_eq!(
        validate_request_origin("http://localhost:8080", ""),
        Some("http://localhost:8080".to_string())
    );
    assert_eq!(validate_request_origin("ftp://x", " , "), None);
    assert_eq!(validate_request_origin("  ", ""), None);
}

#[test]
fn sign_in_links() {
    assert_eq!(
        magic_link_url(Some("https://a.b/".to_string()), None, "tok", Some("/recs")),
        "https://a.b/auth/verify?token=tok&next=/recs"
    );
    assert_eq!(
        magic_link_url(None, Some("https://app.example".to_string()), "tok", Some("")),
        "https://app.example/auth/verify?token=tok"
    );
    assert_eq!(
        magic_link_url(None, Some(String::new()), "tok", None),
        "http://localhost:8080/auth/verify?token=tok"
    );
    assert_eq!(link_mail_subject(), "Your Gem Finder sign-in link");
    let body = link_mail_body("https://x/y");
    assert!(body.starts_with("Click the link below to sign in to Gem Finder.\nThe link expires in 15 minutes.\n\nhttps://x/y\n\n"));
    assert!(body.ends_with("you can ignore this email.\n"));
}

#[test]
fn mail_server_port() {
    assert_eq!(smtp_port(None), Some(587));
    assert_eq!(smtp_port(Some("465")), Some(465));
    assert_eq!(smtp_port(Some("70000")), None);
    assert_eq!(smtp_port(Some("abc")), None);
    assert!(smtp_implicit_tls(465));
    assert!(!smtp_implicit_tls(587));
}

#[test]
fn link_requests_are_checked_and_limited() {
    let mut lim = RateLimiter::new();
    assert!(admit_link_request(&mut lim, "not-an-address", 0).is_none());
    assert!(admit_link_request(&mut lim, "ana@b@example.com", 0).is_none());
    for t in 0..5u64 {
        let r = admit_link_request(&mut lim, " Ana@Example.com ", t).unwrap();
        assert_eq!(r.email, "ana@example.com");
        assert_eq!(r.token.len(), 36);
        assert_eq!(r.user_id.len(), 36);
        assert_eq!(&r.token[14..15], "4");
        assert_ne!(r.token, r.user_id);
    }
    assert!(admit_link_request(&mut lim, "ana@example.com", 10).is_none());
    assert!(admit_link_request(&mut lim, "ana@example.com", 600_000).is_some());
}

#[test]
fn token_use_limits() {
    let mut lim = RateLimiter::new();
    assert_eq!(admit_token_use(&mut lim, "", 0), Err(SignInRefusal::MissingToken));
    for t in 0..5u64 {
        assert_eq!(admit_token_use(&mut lim, "tok", t), Ok(()));
    }
    assert_eq!(admit_token_use(&mut lim, "tok", 5), Err(SignInRefusal::RateLimited));
    assert!(admit_attempt(&mut lim, "alice", 0));
}

#[test]
fn admin_list_membership() {
    let list = vec!["ana@example.com".to_string(), "bob@example.com".to_string()];
    assert!(on_admin_list(&list, "bob@example.com"));
    assert!(!on_admin_list(&list, "Bob@example.com"));
    assert!(is_admin_email(&list, "Bob@Example.com"));
    assert!(!is_admin_email(&list, "carl@example.com"));
}
