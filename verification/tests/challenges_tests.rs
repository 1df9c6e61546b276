use gem_finder::challenges::{ChallengeStore, Taken, CHALLENGE_TTL_MS};

#[test]
fn challenge_is_used_once() {
    let mut s: ChallengeStore<u32> = ChallengeStore::new();
    s.insert("u1", 7, 1000);
    assert!(matches!(s.take("u1", 2000), Taken::Fresh(7)));
    assert!(matches!(s.take("u1", 2000), Taken::Missing));
}

#[test]
fn expired_challenge_is_refused() {
    let mut s: ChallengeStore<u32> = ChallengeStore::new();
    s.insert("u1", 7, 0);
    assert!(matches!(s.take("u1", CHALLENGE_TTL_MS), Taken::Expired));
    s.insert("u2", 8, 0);
    assert!(matches!(s.take("u2", CHALLENGE_TTL_MS - 1), Taken::Fresh(8)));
}

#[test]
fn storing_drops_expired_and_replaces_same_key() {
    let mut s: ChallengeStore<u32> = ChallengeStore::new();
    s.insert("old", 1, 0);
    s.insert("k", 2, 10);
    s.insert("k", 3, CHALLENGE_TTL_MS + 5);
    assert!(matches!(s.take("old", CHALLENGE_TTL_MS + 5), Taken::Missing));
    assert!(matches!(s.take("k", CHALLENGE_TTL_MS + 6), Taken::Fresh(3)));
}
