//! The decision procedure behind seeding one known gem: look the film up by
//! its IMDb id, retry transient failures after a growing pause, fall back to
//! a title search when the lookup has no match, and end in one of four
//! outcomes. The caller performs each action (a request, a store lookup, a
//! sync, a pause) and hands the answer back as an event.

use vstd::prelude::*;

verus! {

/// How many times the IMDb-id lookup is tried before giving up.
pub const SEED_MAX_ATTEMPTS: u32 = 3;

/// The pause before a retry grows by this many milliseconds per attempt made.
pub const SEED_RETRY_STEP_MS: u64 = 500;

/// How seeding one gem ended.
#[derive(Clone, Copy, Debug, PartialEq, Eq, Structural)]
pub enum SeedOutcome {
    /// The film is stored (it already was, or it was synced now).
    Seeded,
    /// Neither the lookup nor the title search found the film.
    NotFound,
    /// The film was found but storing it failed.
    SyncFailed,
    /// The catalogue service could not be reached or answered garbage.
    ApiError,
}

/// The report string of an outcome.
pub open spec fn outcome_text(o: SeedOutcome) -> Seq<char> {
    match o {
        SeedOutcome::Seeded => "seeded"@,
        SeedOutcome::NotFound => "not_found"@,
        SeedOutcome::SyncFailed => "sync_failed"@,
        SeedOutcome::ApiError => "api_error"@,
    }
}

impl SeedOutcome {
    /// The report string: `seeded`, `not_found`, `sync_failed` or `api_error`.
    pub fn as_str(&self) -> (r: &'static str)
        ensures
            r@ == outcome_text(*self),
    {
        match self {
            SeedOutcome::Seeded => "seeded",
            SeedOutcome::NotFound => "not_found",
            SeedOutcome::SyncFailed => "sync_failed",
            SeedOutcome::ApiError => "api_error",
        }
    }
}

/// Where seeding one gem stands: what it waits for.
#[derive(Clone, Copy, Debug, PartialEq, Eq, Structural)]
pub enum SeedStage {
    /// Waiting for the answer of lookup number `attempt`.
    Lookup { attempt: u32 },
    /// Waiting out the pause before lookup number `attempt`.
    Backoff { attempt: u32 },
    /// Waiting to hear whether `tmdb_id` is already stored. `searched` tells
    /// whether the id came from the title search; `attempt` is the lookup
    /// that found it (0 after a search).
    Stored { attempt: u32, tmdb_id: i64, searched: bool },
    /// Waiting for the sync of `tmdb_id`.
    Sync { attempt: u32, tmdb_id: i64, searched: bool },
    /// Waiting for the answer of the title search.
    Search,
    /// Finished.
    Done { outcome: SeedOutcome },
}

/// What the caller is asked to do next.
#[derive(Clone, Copy, Debug, PartialEq, Eq, Structural)]
pub enum SeedAction {
    /// Look the film up by its IMDb id (lookup number `attempt`).
    Lookup { attempt: u32 },
    /// Sleep this many milliseconds.
    Pause { millis: u64 },
    /// Find out whether a film with this catalogue id is already stored.
    CheckStored { tmdb_id: i64 },
    /// Fetch and store the film with this catalogue id.
    Sync { tmdb_id: i64 },
    /// Search the catalogue by title and year.
    Search,
    /// Stop and report the outcome.
    Finish { outcome: SeedOutcome },
}

/// The answer to an action.
#[derive(Clone, Copy, Debug, PartialEq, Eq, Structural)]
pub enum SeedEvent {
    /// The lookup request or its decoding failed.
    LookupFailed,
    /// The lookup answered; `first` is the id of its first film match.
    LookupAnswered { first: Option<i64> },
    /// The pause is over.
    Paused,
    /// Whether the film is already stored.
    StoredAnswer { stored: bool },
    /// Whether the sync succeeded.
    SyncAnswer { ok: bool },
    /// The title search request or its decoding failed.
    SearchFailed,
    /// The title search answered; `first` is the id of its first result.
    SearchAnswered { first: Option<i64> },
}

/// The stages the procedure can be in.
pub open spec fn seed_valid(s: SeedStage) -> bool {
    match s {
        SeedStage::Lookup { attempt } => 1 <= attempt <= SEED_MAX_ATTEMPTS,
        SeedStage::Backoff { attempt } => 2 <= attempt <= SEED_MAX_ATTEMPTS,
        SeedStage::Stored { attempt, searched, .. } => if searched {
            attempt == 0
        } else {
            1 <= attempt <= SEED_MAX_ATTEMPTS
        },
        SeedStage::Sync { attempt, searched, .. } => if searched {
            attempt == 0
        } else {
            1 <= attempt <= SEED_MAX_ATTEMPTS
        },
        SeedStage::Search => true,
        SeedStage::Done { .. } => true,
    }
}

/// After lookup number `attempt` failed: pause and retry while attempts
/// remain, else give up with `last`.
pub open spec fn after_failed_attempt(attempt: u32, last: SeedOutcome) -> SeedStage {
    if attempt < SEED_MAX_ATTEMPTS {
        SeedStage::Backoff { attempt: (attempt + 1) as u32 }
    } else {
        SeedStage::Done { outcome: last }
    }
}

/// The next stage after `e` answers the action of stage `s`. An event that
/// does not answer the pending action leaves the stage as it is.
pub open spec fn seed_next(s: SeedStage, e: SeedEvent) -> SeedStage {
    match s {
        SeedStage::Lookup { attempt } => match e {
            SeedEvent::LookupFailed => after_failed_attempt(attempt, SeedOutcome::ApiError),
            SeedEvent::LookupAnswered { first } => match first {
                Some(id) => SeedStage::Stored { attempt, tmdb_id: id, searched: false },
                None => SeedStage::Search,
            },
            _ => s,
        },
        SeedStage::Backoff { attempt } => match e {
            SeedEvent::Paused => SeedStage::Lookup { attempt },
            _ => s,
        },
        SeedStage::Stored { attempt, tmdb_id, searched } => match e {
            SeedEvent::StoredAnswer { stored } => if stored {
                SeedStage::Done { outcome: SeedOutcome::Seeded }
            } else {
                SeedStage::Sync { attempt, tmdb_id, searched }
            },
            _ => s,
        },
        SeedStage::Sync { attempt, searched, .. } => match e {
            SeedEvent::SyncAnswer { ok } => if ok {
                SeedStage::Done { outcome: SeedOutcome::Seeded }
            } else if searched {
                SeedStage::Done { outcome: SeedOutcome::SyncFailed }
            } else {
                after_failed_attempt(attempt, SeedOutcome::SyncFailed)
            },
            _ => s,
        },
        SeedStage::Search => match e {
            SeedEvent::SearchFailed => SeedStage::Done { outcome: SeedOutcome::ApiError },
            SeedEvent::SearchAnswered { first } => match first {
                Some(id) => SeedStage::Stored { attempt: 0, tmdb_id: id, searched: true },
                None => SeedStage::Done { outcome: SeedOutcome::NotFound },
            },
            _ => s,
        },
        SeedStage::Done { .. } => s,
    }
}

/// The action a stage waits on. The pause before lookup number `attempt`
/// lasts `SEED_RETRY_STEP_MS` times the number of lookups already made.
pub open spec fn seed_pending(s: SeedStage) -> SeedAction {
    match s {
        SeedStage::Lookup { attempt } => SeedAction::Lookup { attempt },
        SeedStage::Backoff { attempt } => SeedAction::Pause {
            millis: (SEED_RETRY_STEP_MS * (attempt - 1)) as u64,
        },
        SeedStage::Stored { tmdb_id, .. } => SeedAction::CheckStored { tmdb_id },
        SeedStage::Sync { tmdb_id, .. } => SeedAction::Sync { tmdb_id },
        SeedStage::Search => SeedAction::Search,
        SeedStage::Done { outcome } => SeedAction::Finish { outcome },
    }
}

/// Whether `e` is an answer to the action `a`.
pub open spec fn answers(a: SeedAction, e: SeedEvent) -> bool {
    match a {
        SeedAction::Lookup { .. } => e is LookupFailed || e is LookupAnswered,
        SeedAction::Pause { .. } => e is Paused,
        SeedAction::CheckStored { .. } => e is StoredAnswer,
        SeedAction::Sync { .. } => e is SyncAnswer,
        SeedAction::Search => e is SearchFailed || e is SearchAnswered,
        SeedAction::Finish { .. } => false,
    }
}

/// An upper bound on the steps left before the procedure finishes.
pub open spec fn seed_rank(s: SeedStage) -> int {
    match s {
        SeedStage::Lookup { attempt } => 7 + 4 * (SEED_MAX_ATTEMPTS - attempt),
        SeedStage::Backoff { attempt } => 8 + 4 * (SEED_MAX_ATTEMPTS - attempt),
        SeedStage::Stored { attempt, searched, .. } => if searched {
            2
        } else {
            6 + 4 * (SEED_MAX_ATTEMPTS - attempt)
        },
        SeedStage::Sync { attempt, searched, .. } => if searched {
            1
        } else {
            5 + 4 * (SEED_MAX_ATTEMPTS - attempt)
        },
        SeedStage::Search => 3,
        SeedStage::Done { .. } => 0,
    }
}

/// The first stage: waiting for the first lookup.
pub fn seed_start() -> (r: SeedStage)
    ensures
        r == (SeedStage::Lookup { attempt: 1 }),
        seed_valid(r),
{
    SeedStage::Lookup { attempt: 1 }
}

/// The action the caller has to perform in stage `s`.
pub fn seed_action(s: SeedStage) -> (a: SeedAction)
    requires
        seed_valid(s),
    ensures
        a == seed_pending(s),
{
    match s {
        SeedStage::Lookup { attempt } => SeedAction::Lookup { attempt },
        SeedStage::Backoff { attempt } => SeedAction::Pause {
            millis: SEED_RETRY_STEP_MS * ((attempt - 1) as u64),
        },
        SeedStage::Stored { tmdb_id, .. } => SeedAction::CheckStored { tmdb_id },
        SeedStage::Sync { tmdb_id, .. } => SeedAction::Sync { tmdb_id },
        SeedStage::Search => SeedAction::Search,
        SeedStage::Done { outcome } => SeedAction::Finish { outcome },
    }
}

fn after_failed_attempt_exec(attempt: u32, last: SeedOutcome) -> (r: SeedStage)
    requires
        1 <= attempt <= SEED_MAX_ATTEMPTS,
    ensures
        r == after_failed_attempt(attempt, last),
{
    if attempt < SEED_MAX_ATTEMPTS {
        SeedStage::Backoff { attempt: attempt + 1 }
    } else {
        SeedStage::Done { outcome: last }
    }
}

/// The stage after event `e` in stage `s`.
pub fn seed_step(s: SeedStage, e: SeedEvent) -> (r: SeedStage)
    requires
        seed_valid(s),
    ensures
        r == seed_next(s, e),
        seed_valid(r),
{
    match s {
        SeedStage::Lookup { attempt } => match e {
            SeedEvent::LookupFailed => after_failed_attempt_exec(attempt, SeedOutcome::ApiError),
            SeedEvent::LookupAnswered { first } => match first {
                Some(id) => SeedStage::Stored { attempt, tmdb_id: id, searched: false },
                None => SeedStage::Search,
            },
            _ => s,
        },
        SeedStage::Backoff { attempt } => match e {
            SeedEvent::Paused => SeedStage::Lookup { attempt },
            _ => s,
        },
        SeedStage::Stored { attempt, tmdb_id, searched } => match e {
            SeedEvent::StoredAnswer { stored } => if stored {
                SeedStage::Done { outcome: SeedOutcome::Seeded }
            } else {
                SeedStage::Sync { attempt, tmdb_id, searched }
            },
            _ => s,
        },
        SeedStage::Sync { attempt, searched, .. } => match e {
            SeedEvent::SyncAnswer { ok } => if ok {
                SeedStage::Done { outcome: SeedOutcome::Seeded }
            } else if searched {
                SeedStage::Done { outcome: SeedOutcome::SyncFailed }
            } else {
                after_failed_attempt_exec(attempt, SeedOutcome::SyncFailed)
            },
            _ => s,
        },
        SeedStage::Search => match e {
            SeedEvent::SearchFailed => SeedStage::Done { outcome: SeedOutcome::ApiError },
            SeedEvent::SearchAnswered { first } => match first {
                Some(id) => SeedStage::Stored { attempt: 0, tmdb_id: id, searched: true },
                None => SeedStage::Done { outcome: SeedOutcome::NotFound },
            },
            _ => s,
        },
        SeedStage::Done { .. } => s,
    }
}

/// Every step keeps the stage valid, and an answer to the pending action
/// brings an unfinished procedure strictly closer to its end; any other
/// event changes nothing. So the procedure finishes after at most
/// `seed_rank(seed_start())` answered actions.
pub proof fn lemma_seed_progress(s: SeedStage, e: SeedEvent)
    requires
        seed_valid(s),
    ensures
        seed_valid(seed_next(s, e)),
        answers(seed_pending(s), e) ==> seed_rank(seed_next(s, e)) < seed_rank(s),
        !answers(seed_pending(s), e) ==> seed_next(s, e) == s,
        0 <= seed_rank(seed_next(s, e)),
        seed_rank(seed_next(s, e)) == 0 <==> seed_next(s, e) is Done,
{
}

/// The pause before lookup number `attempt`.
pub open spec fn retry_pause(attempt: u32) -> SeedAction {
    SeedAction::Pause { millis: (SEED_RETRY_STEP_MS * (attempt - 1)) as u64 }
}

/// The lookup is made at most `SEED_MAX_ATTEMPTS` times, and the pause
/// before lookup number `n` lasts `SEED_RETRY_STEP_MS * (n - 1)` ms.
pub proof fn lemma_seed_retry_bound(s: SeedStage)
    requires
        seed_valid(s),
    ensures
        (s matches SeedStage::Lookup { attempt } ==> attempt <= SEED_MAX_ATTEMPTS),
        (s matches SeedStage::Backoff { attempt } ==> 2 <= attempt <= SEED_MAX_ATTEMPTS),
        (s matches SeedStage::Backoff { attempt } ==> seed_pending(s) == retry_pause(attempt)),
{
}

/// The finished stage with outcome `o`.
pub open spec fn finished(o: SeedOutcome) -> SeedStage {
    SeedStage::Done { outcome: o }
}

/// How each outcome comes about: `Seeded` only when the store already had
/// the film or a sync succeeded, `NotFound` only when the title search came
/// back empty, `SyncFailed` only when a sync failed, `ApiError` only when a
/// request failed.
pub proof fn lemma_seed_outcomes(s: SeedStage, e: SeedEvent)
    requires
        seed_valid(s),
        !(s is Done),
    ensures
        seed_next(s, e) == finished(SeedOutcome::Seeded) ==> (e matches SeedEvent::StoredAnswer {
            stored: true,
        } || e matches SeedEvent::SyncAnswer { ok: true }),
        seed_next(s, e) == finished(SeedOutcome::NotFound) ==> (s is Search
            && e matches SeedEvent::SearchAnswered { first: None }),
        seed_next(s, e) == finished(SeedOutcome::SyncFailed) ==> (e matches SeedEvent::SyncAnswer {
            ok: false,
        }),
        seed_next(s, e) == finished(SeedOutcome::ApiError) ==> (e is LookupFailed
            || e is SearchFailed),
{
}

/// How many outcomes are `Seeded`.
pub open spec fn seeded_count(s: Seq<SeedOutcome>) -> nat
    decreases s.len(),
{
    if s.len() == 0 {
        0
    } else {
        seeded_count(s.drop_last()) + if s.last() == SeedOutcome::Seeded {
            1nat
        } else {
            0nat
        }
    }
}

/// Counts the gems that were seeded.
pub fn count_seeded(outcomes: &Vec<SeedOutcome>) -> (r: usize)
    ensures
        r == seeded_count(outcomes@),
{
    let mut n: usize = 0;
    let mut i: usize = 0;
    while i < outcomes.len()
        invariant
            i <= outcomes.len(),
            n == seeded_count(outcomes@.subrange(0, i as int)),
            n <= i,
        decreases outcomes.len() - i,
    {
        assert(outcomes@.subrange(0, i + 1).drop_last() == outcomes@.subrange(0, i as int));
        if outcomes[i] == SeedOutcome::Seeded {
            n = n + 1;
        }
        i = i + 1;
    }
    assert(outcomes@.subrange(0, i as int) == outcomes@);
    n
}

/// The mark shown next to an outcome in the seeding report.
pub open spec fn outcome_mark_spec(o: SeedOutcome) -> Seq<char> {
    match o {
        SeedOutcome::Seeded => "✅"@,
        SeedOutcome::NotFound => "❌"@,
        _ => "⚠️"@,
    }
}

/// The mark shown next to an outcome in the seeding report.
pub fn outcome_mark(o: SeedOutcome) -> (r: &'static str)
    ensures
        r@ == outcome_mark_spec(o),
{
    match o {
        SeedOutcome::Seeded => "✅",
        SeedOutcome::NotFound => "❌",
        _ => "⚠️",
    }
}

} // verus!
