use gem_finder::ratelimit::{live, prune, RateLimiter};

#[test]
fn five_per_window_then_refused() {
    let mut lim = RateLimiter::new();
    for t in 0..5u64 {
        assert!(!lim.over_limit("a@b.co", t * 1000, 5, 600_000));
    }
    assert!(lim.over_limit("a@b.co", 6000, 5, 600_000));
    // Another key is counted on its own.
    assert!(!lim.over_limit("c@d.co", 6000, 5, 600_000));
    // Once the first request has left the window, one more is accepted.
    assert!(!lim.over_limit("a@b.co", 600_000, 5, 600_000));
    assert!(lim.over_limit("a@b.co", 600_001, 5, 600_000));
}

#[test]
fn refused_requests_are_not_counted() {
    let mut lim = RateLimiter::new();
    assert!(!lim.over_limit("k", 0, 1, 100));
    assert!(lim.over_limit("k", 50, 1, 100));
    assert!(lim.over_limit("k", 99, 1, 100));
    assert!(!lim.over_limit("k", 100, 1, 100));
}

#[test]
fn pruning_keeps_recent_entries() {
    assert_eq!(prune(&vec![0, 50, 90, 120], 130, 50), vec![90, 120]);
    assert_eq!(prune(&vec![200], 100, 50), vec![200]);
}

#[test]
fn ttl_liveness() {
    assert!(live(0, 299, 300));
    assert!(!live(0, 300, 300));
    assert!(live(500, 100, 300));
}
