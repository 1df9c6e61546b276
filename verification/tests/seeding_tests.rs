use gem_finder::seeding::{
    count_seeded, outcome_mark, seed_action, seed_start, seed_step, SeedAction, SeedEvent,
    SeedOutcome, SeedStage,
};

/// Drives the procedure with scripted answers and returns the actions asked
/// for, ending with the finish action.
fn run(answers: &[SeedEvent]) -> Vec<SeedAction> {
    let mut stage = seed_start();
    let mut actions = vec![seed_action(stage)];
    for e in answers {
        stage = seed_step(stage, *e);
        actions.push(seed_action(stage));
    }
    actions
}

#[test]
fn found_by_lookup_and_synced() {
    let a = run(&[
        SeedEvent::LookupAnswered { first: Some(680) },
        SeedEvent::StoredAnswer { stored: false },
        SeedEvent::SyncAnswer { ok: true },
    ]);
    assert_eq!(
        a,
        vec![
            SeedAction::Lookup { attempt: 1 },
            SeedAction::CheckStored { tmdb_id: 680 },
            SeedAction::Sync { tmdb_id: 680 },
            SeedAction::Finish { outcome: SeedOutcome::Seeded },
        ]
    );
}

#[test]
fn already_stored_skips_sync() {
    let a = run(&[
        SeedEvent::LookupAnswered { first: Some(7) },
        SeedEvent::StoredAnswer { stored: true },
    ]);
    assert_eq!(a.last(), Some(&SeedAction::Finish { outcome: SeedOutcome::Seeded }));
}

#[test]
fn lookup_failures_retry_with_growing_pause() {
    let a = run(&[
        SeedEvent::LookupFailed,
        SeedEvent::Paused,
        SeedEvent::LookupFailed,
        SeedEvent::Paused,
        SeedEvent::LookupFailed,
    ]);
    assert_eq!(
        a,
        vec![
            SeedAction::Lookup { attempt: 1 },
            SeedAction::Pause { millis: 500 },
            SeedAction::Lookup { attempt: 2 },
            SeedAction::Pause { millis: 1000 },
            SeedAction::Lookup { attempt: 3 },
            SeedAction::Finish { outcome: SeedOutcome::ApiError },
        ]
    );
}

#[test]
fn failed_syncs_retry_the_lookup() {
    let a = run(&[
        SeedEvent::LookupAnswered { first: Some(1) },
        SeedEvent::StoredAnswer { stored: false },
        SeedEvent::SyncAnswer { ok: false },
        SeedEvent::Paused,
        SeedEvent::LookupAnswered { first: Some(1) },
        SeedEvent::StoredAnswer { stored: false },
        SeedEvent::SyncAnswer { ok: false },
        SeedEvent::Paused,
        SeedEvent::LookupAnswered { first: Some(1) },
        SeedEvent::StoredAnswer { stored: false },
        SeedEvent::SyncAnswer { ok: false },
    ]);
    assert_eq!(a[3], SeedAction::Pause { millis: 500 });
    assert_eq!(a[4], SeedAction::Lookup { attempt: 2 });
    assert_eq!(a[7], SeedAction::Pause { millis: 1000 });
    assert_eq!(a.last(), Some(&SeedAction::Finish { outcome: SeedOutcome::SyncFailed }));
}

#[test]
fn empty_lookup_falls_back_to_search() {
    let a = run(&[
        SeedEvent::LookupAnswered { first: None },
        SeedEvent::SearchAnswered { first: Some(99) },
        SeedEvent::StoredAnswer { stored: false },
        SeedEvent::SyncAnswer { ok: false },
    ]);
    assert_eq!(a[1], SeedAction::Search);
    assert_eq!(a.last(), Some(&SeedAction::Finish { outcome: SeedOutcome::SyncFailed }));
    let a = run(&[
        SeedEvent::LookupAnswered { first: None },
        SeedEvent::SearchAnswered { first: None },
    ]);
    assert_eq!(a.last(), Some(&SeedAction::Finish { outcome: SeedOutcome::NotFound }));
    let a = run(&[SeedEvent::LookupAnswered { first: None }, SeedEvent::SearchFailed]);
    assert_eq!(a.last(), Some(&SeedAction::Finish { outcome: SeedOutcome::ApiError }));
}

#[test]
fn unrelated_events_change_nothing() {
    let s = seed_start();
    assert_eq!(seed_step(s, SeedEvent::Paused), s);
    let done = SeedStage::Done { outcome: SeedOutcome::Seeded };
    assert_eq!(seed_step(done, SeedEvent::LookupFailed), done);
}

#[test]
fn outcome_strings_and_tally() {
    assert_eq!(SeedOutcome::Seeded.as_str(), "seeded");
    assert_eq!(SeedOutcome::NotFound.as_str(), "not_found");
    assert_eq!(SeedOutcome::SyncFailed.as_str(), "sync_failed");
    assert_eq!(SeedOutcome::ApiError.as_str(), "api_error");
    assert_eq!(outcome_mark(SeedOutcome::Seeded), "✅");
    assert_eq!(outcome_mark(SeedOutcome::NotFound), "❌");
    assert_eq!(outcome_mark(SeedOutcome::ApiError), "⚠️");
    let all = vec![
        SeedOutcome::Seeded,
        SeedOutcome::ApiError,
        SeedOutcome::Seeded,
        SeedOutcome::NotFound,
    ];
    assert_eq!(count_seeded(&all), 2);
    assert_eq!(count_seeded(&vec![]), 0);
}
