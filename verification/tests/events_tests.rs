use gem_finder::events::{
    admit_event, client_ip_exec, is_valid_era, session_hash, validate_event, EventRefusal,
    EventRejected, TrackEventRequest,
};
use gem_finder::ratelimit::RateLimiter;
use sha2::{Digest, Sha256};

fn event(kind: &str) -> TrackEventRequest {
    TrackEventRequest {
        event_type: kind.to_string(),
        movie_id: None,
        genre: None,
        era: None,
        section: None,
        page_num: None,
    }
}

#[test]
fn accepts_plain_events() {
    assert_eq!(validate_event(&event("search_used")), Ok(None));
    let mut e = event("movie_view");
    e.movie_id = Some("mv16".to_string());
    assert_eq!(validate_event(&e), Ok(Some(42)));
    let mut e = event("pagination");
    e.page_num = Some(1000);
    e.section = Some("wildcards".to_string());
    e.era = Some(1990);
    e.genre = Some("Drama".to_string());
    assert_eq!(validate_event(&e), Ok(None));
}

#[test]
fn rejects_each_bad_field() {
    assert_eq!(validate_event(&event("click")), Err(EventRejected::UnknownType));
    assert_eq!(validate_event(&event("movie_view")), Err(EventRejected::BadMovieId));
    let mut e = event("filter_genre");
    e.movie_id = Some("mv!".to_string());
    assert_eq!(validate_event(&e), Err(EventRejected::BadMovieId));
    let mut e = event("filter_genre");
    e.genre = Some("x".repeat(51));
    assert_eq!(validate_event(&e), Err(EventRejected::GenreTooLong));
    e.genre = Some("x".repeat(50));
    assert_eq!(validate_event(&e), Ok(None));
    let mut e = event("filter_era");
    e.era = Some(1975);
    assert_eq!(validate_event(&e), Err(EventRejected::BadEra));
    let mut e = event("section_view");
    e.section = Some("home".to_string());
    assert_eq!(validate_event(&e), Err(EventRejected::BadSection));
    let mut e = event("pagination");
    e.page_num = Some(0);
    assert_eq!(validate_event(&e), Err(EventRejected::BadPage));
    e.page_num = Some(1001);
    assert_eq!(validate_event(&e), Err(EventRejected::BadPage));
}

#[test]
fn genre_length_counts_bytes() {
    let mut e = event("filter_genre");
    e.genre = Some("é".repeat(26));
    assert_eq!(validate_event(&e), Err(EventRejected::GenreTooLong));
}

#[test]
fn eras() {
    for era in [1960, 1970, 1980, 1990, 2000, 2010, 2020] {
        assert!(is_valid_era(era));
    }
    assert!(!is_valid_era(2030));
}

#[test]
fn client_address() {
    assert_eq!(client_ip_exec(Some(" 1.2.3.4 , 5.6.7.8")), "1.2.3.4");
    assert_eq!(client_ip_exec(None), "unknown");
}

#[test]
fn session_hash_is_sha256_hex() {
    let expected = hex::encode(Sha256::digest(b"1.2.3.4|agent|2024-01-02"));
    assert_eq!(session_hash("1.2.3.4", Some("agent"), "2024-01-02"), expected);
    let expected = hex::encode(Sha256::digest(b"1.2.3.4|unknown|2024-01-02"));
    assert_eq!(session_hash("1.2.3.4", None, "2024-01-02"), expected);
    assert_eq!(expected.len(), 64);
    assert_ne!(session_hash("1.2.3.4", None, "2024-01-03"), expected);
}

#[test]
fn event_rate_limit() {
    let mut lim = RateLimiter::new();
    let e = event("search_used");
    for i in 0..60u64 {
        let a = admit_event(&mut lim, &e, Some("9.9.9.9"), Some("ua"), "2024-01-02", i).unwrap();
        assert_eq!(a.movie_id, None);
        assert_eq!(a.session_hash, session_hash("9.9.9.9", Some("ua"), "2024-01-02"));
    }
    assert_eq!(
        admit_event(&mut lim, &e, Some("9.9.9.9"), Some("ua"), "2024-01-02", 100).err(),
        Some(EventRefusal::RateLimited)
    );
    // An invalid payload is refused before the limiter is consulted.
    assert_eq!(
        admit_event(&mut lim, &event("nope"), Some("9.9.9.9"), Some("ua"), "2024-01-02", 100).err(),
        Some(EventRefusal::Invalid(EventRejected::UnknownType))
    );
    // Sixty seconds after the first event the window has room again.
    assert!(admit_event(&mut lim, &e, Some("9.9.9.9"), Some("ua"), "2024-01-02", 60_000).is_ok());
}
