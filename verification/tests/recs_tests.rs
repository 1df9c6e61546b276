use gem_finder::ratelimit::RateLimiter;
use gem_finder::recs::{
    admit_rec_action, canonical_pair, claim_decision, claim_succeeds, draft_rec, rec_limit_key,
    friend_chosen, rec_flow_step, share_link, str_lt, ClaimAction, RecAction, RecFlow,
    RecFlowEvent, RecRefusal,
};

#[test]
fn canonical_pairs_sort() {
    assert_eq!(canonical_pair("user-bbb", "user-aaa"), ("user-aaa", "user-bbb"));
    assert_eq!(canonical_pair("user-aaa", "user-bbb"), ("user-aaa", "user-bbb"));
    assert!(str_lt("ab", "b"));
    assert!(str_lt("a", "ab"));
    assert!(!str_lt("b", "b"));
}

#[test]
fn claims() {
    match claim_decision(Some("user-bbb"), "user-aaa") {
        ClaimAction::Record { friend_a, friend_b } => {
            assert_eq!(friend_a, "user-aaa");
            assert_eq!(friend_b, "user-bbb");
        }
        _ => panic!("expected a record"),
    }
    let own = claim_decision(Some("user-bbb"), "user-bbb");
    assert!(matches!(own, ClaimAction::NoOp));
    assert!(claim_succeeds(&own));
    let unknown = claim_decision(None, "user-aaa");
    assert!(matches!(unknown, ClaimAction::NotFound));
    assert!(!claim_succeeds(&unknown));
}

#[test]
fn limit_keys() {
    assert_eq!(rec_limit_key(RecAction::Send, "u1"), "rec_send:u1");
    assert_eq!(rec_limit_key(RecAction::View, "t"), "rec_view:t");
    assert_eq!(rec_limit_key(RecAction::Claim, "u1"), "rec_claim:u1");
    assert_eq!(rec_limit_key(RecAction::Revoke, "u1"), "rec_revoke:u1");
}

#[test]
fn views_limited_per_ten_minutes() {
    let mut lim = RateLimiter::new();
    for t in 0..30u64 {
        assert!(admit_rec_action(&mut lim, RecAction::View, "tok", t));
    }
    assert!(!admit_rec_action(&mut lim, RecAction::View, "tok", 31));
    assert!(admit_rec_action(&mut lim, RecAction::Claim, "tok", 31));
    assert!(admit_rec_action(&mut lim, RecAction::View, "tok", 600_000));
}

#[test]
fn drafts() {
    let mut lim = RateLimiter::new();
    let d = draft_rec(&mut lim, "u1", Some("  loved it  "), 0).unwrap();
    assert_eq!(d.note.as_deref(), Some("loved it"));
    assert_eq!(d.token.len(), 32);
    assert!(d.token.chars().all(|c| c.is_ascii_hexdigit() && !c.is_ascii_uppercase()));
    let d = draft_rec(&mut lim, "u1", Some("   "), 1).unwrap();
    assert_eq!(d.note, None);
    let long = "é".repeat(141);
    assert_eq!(draft_rec(&mut lim, "u1", Some(&long), 2).err(), Some(RecRefusal::NoteTooLong));
    let edge = format!("  {}  ", "é".repeat(140));
    assert_eq!(draft_rec(&mut lim, "u1", Some(&edge), 3).unwrap().note.map(|n| n.chars().count()), Some(140));
    for t in 4..20u64 {
        assert!(draft_rec(&mut lim, "u1", None, t).is_ok());
    }
    assert_eq!(draft_rec(&mut lim, "u1", None, 30).err(), Some(RecRefusal::RateLimited));
    assert!(draft_rec(&mut lim, "u2", None, 30).is_ok());
}

#[test]
fn recommend_dialog_steps() {
    let origin = "https://gems.example";
    assert_eq!(share_link(origin, "abc"), "https://gems.example/r/abc");
    assert_eq!(rec_flow_step(RecFlow::Closed, RecFlowEvent::Open, origin), RecFlow::Compose);
    assert_eq!(
        rec_flow_step(RecFlow::Compose, RecFlowEvent::LinkCreated { token: "abc".to_string() }, origin),
        RecFlow::LinkReady("https://gems.example/r/abc".to_string())
    );
    assert_eq!(
        rec_flow_step(RecFlow::Compose, RecFlowEvent::Refused { error: "username_required".to_string() }, origin),
        RecFlow::NeedsUsername
    );
    assert_eq!(
        rec_flow_step(RecFlow::Compose, RecFlowEvent::Refused { error: "not_friends".to_string() }, origin),
        RecFlow::Compose
    );
    assert_eq!(rec_flow_step(RecFlow::NeedsUsername, RecFlowEvent::UsernameChosen, origin), RecFlow::Compose);
    assert_eq!(rec_flow_step(RecFlow::Compose, RecFlowEvent::SentToFriend, origin), RecFlow::Sent);
    assert_eq!(rec_flow_step(RecFlow::Sent, RecFlowEvent::Close, origin), RecFlow::Closed);
    assert!(friend_chosen("bob"));
    assert!(!friend_chosen(""));
}
