//! Administrative background jobs: whether a job may start, the stages each
//! job runs through in order, which failures end a job early, and how the
//! item limit of a job is read and reported.

use vstd::prelude::*;
use crate::auth::AdminAuthError;
use crate::text::{chars_of, i64_to_string, int_text, parse_u64, parse_u64_spec};

verus! {

// ─────────────────────────── the item limit ───────────────────────────

/// The body of a job request that takes an item limit.
#[derive(Clone, Copy, Debug, PartialEq, Eq, Structural)]
pub struct EnrichQuery {
    /// At most this many items are processed; no limit when absent.
    pub limit: Option<i64>,
}

/// The limit a job works with: the requested one, or `i64::MAX` (no limit).
pub open spec fn effective_limit_spec(q: EnrichQuery) -> i64 {
    match q.limit {
        Some(l) => l,
        None => i64::MAX,
    }
}

impl EnrichQuery {
    /// The limit a job works with: the requested one, or `i64::MAX`.
    pub fn effective_limit(&self) -> (r: i64)
        ensures
            r == effective_limit_spec(*self),
    {
        match self.limit {
            Some(l) => l,
            None => i64::MAX,
        }
    }
}

/// How a limit is reported: `unlimited` for `i64::MAX`, else its decimal
/// notation.
pub open spec fn limit_label_spec(limit: i64) -> Seq<char> {
    if limit == i64::MAX {
        "unlimited"@
    } else {
        int_text(limit as int)
    }
}

/// How a limit is reported.
pub fn limit_label(limit: i64) -> (r: String)
    ensures
        r@ == limit_label_spec(limit),
{
    if limit == i64::MAX {
        "unlimited".to_string()
    } else {
        i64_to_string(limit)
    }
}

// ─────────────────────────── starting a job ───────────────────────────

/// Why a job request is refused before the job starts.
#[derive(Clone, Copy, Debug, PartialEq, Eq, Structural)]
pub enum JobRefusal {
    /// The admin gate refused the request.
    Auth(AdminAuthError),
    /// The job needs an external service whose key is not configured (503).
    ServiceMissing,
    /// Another job is running (409).
    Busy,
}

/// The HTTP status an admin gate refusal is answered with.
pub open spec fn auth_status(e: AdminAuthError) -> u16 {
    match e {
        AdminAuthError::Unauthorized => 401,
        AdminAuthError::Forbidden => 403,
        AdminAuthError::NotConfigured => 500,
    }
}

/// The HTTP status a refusal is answered with.
pub open spec fn refusal_status_spec(r: JobRefusal) -> u16 {
    match r {
        JobRefusal::Auth(e) => auth_status(e),
        JobRefusal::ServiceMissing => 503,
        JobRefusal::Busy => 409,
    }
}

/// The HTTP status a refusal is answered with.
pub fn refusal_status(r: JobRefusal) -> (s: u16)
    ensures
        s == refusal_status_spec(r),
{
    match r {
        JobRefusal::Auth(e) => match e {
            AdminAuthError::Unauthorized => 401,
            AdminAuthError::Forbidden => 403,
            AdminAuthError::NotConfigured => 500,
        },
        JobRefusal::ServiceMissing => 503,
        JobRefusal::Busy => 409,
    }
}

/// Whether a job may start: the admin gate must pass, then the service
/// key the job needs (if any) must be configured, then no other job may be
/// running. Each check is made only when the ones before it passed.
pub open spec fn job_admission(
    gate: Result<(), AdminAuthError>,
    required_key: Option<Seq<char>>,
    busy: bool,
) -> Result<(), JobRefusal> {
    match gate {
        Err(e) => Err(JobRefusal::Auth(e)),
        Ok(()) => match required_key {
            Some(k) if k.len() == 0 => Err(JobRefusal::ServiceMissing),
            _ => if busy {
                Err(JobRefusal::Busy)
            } else {
                Ok(())
            },
        },
    }
}

/// The checks before the busy flag is taken: the admin gate, then the key.
pub fn job_precheck(gate: Result<(), AdminAuthError>, required_key: Option<&str>) -> (r: Result<
    (),
    JobRefusal,
>)
    ensures
        r == job_admission(
            gate,
            match required_key {
                Some(k) => Some(k@),
                None => None,
            },
            false,
        ),
{
    match gate {
        Err(e) => Err(JobRefusal::Auth(e)),
        Ok(()) => match required_key {
            Some(k) => if k.unicode_len() == 0 {
                Err(JobRefusal::ServiceMissing)
            } else {
                Ok(())
            },
            None => Ok(()),
        },
    }
}

/// The full admission decision, given whether the busy flag could be taken.
pub fn admit_job(gate: Result<(), AdminAuthError>, required_key: Option<&str>, busy: bool) -> (r:
    Result<(), JobRefusal>)
    ensures
        r == job_admission(
            gate,
            match required_key {
                Some(k) => Some(k@),
                None => None,
            },
            busy,
        ),
{
    match job_precheck(gate, required_key) {
        Err(e) => Err(e),
        Ok(()) => if busy {
            Err(JobRefusal::Busy)
        } else {
            Ok(())
        },
    }
}

// ─────────────────────────── job plans ───────────────────────────

/// The administrative jobs.
#[derive(Clone, Copy, Debug, PartialEq, Eq, Structural)]
pub enum Job {
    /// Full catalogue sync: era windows, blockbusters, known gems, acclaimed candidates.
    Sync,
    /// Ratings enrichment.
    Enrich,
    /// Scoring and classification.
    Score,
    /// Streaming availability sync.
    ProviderSync,
    /// Test data: known gems, enrichment, scoring, wildcards.
    Seed,
    /// Acclaimed films: candidates, enrichment, classification.
    AcclaimedIngest,
    /// The command-line test-data seeding: migrations, known gems,
    /// blockbusters, era windows, acclaimed candidates, enrichment, scoring
    /// and both classifications, carrying on past failures.
    SeedCli,
    /// The periodic sync: era windows, blockbusters, acclaimed candidates,
    /// enrichment, scoring and classification, each tried in turn.
    ScheduledSync,
}

/// One stage of a job.
#[derive(Clone, Copy, Debug, PartialEq, Eq, Structural)]
pub enum Stage {
    /// Open the database connection.
    Connect,
    /// Bring the schema up to date.
    Migrate,
    /// Read the catalogue service configuration.
    InitConfig,
    /// Sync gem candidates of the era window with this index.
    SyncEra(usize),
    /// Record blockbusters.
    Blockbusters,
    /// Seed the known gems.
    SeedGems,
    /// Sync acclaimed candidates.
    AcclaimedCandidates,
    /// Enrich ratings.
    Enrich,
    /// Note that enrichment was skipped for want of a key.
    EnrichSkipped,
    /// Score all films.
    Score,
    /// Classify acclaimed films.
    ClassifyAcclaimed,
    /// Classify wildcards.
    ClassifyWildcards,
    /// Sync streaming availability.
    SyncProviders,
    /// Drop the cached film lists.
    InvalidateCache,
}

/// A stage of a plan; when a `fatal` stage fails, the job ends there.
#[derive(Clone, Copy, Debug, PartialEq, Eq, Structural)]
pub struct PlannedStage {
    pub stage: Stage,
    pub fatal: bool,
}

/// A fatal stage.
pub open spec fn must(stage: Stage) -> PlannedStage {
    PlannedStage { stage, fatal: true }
}

/// A stage whose failure is noted and passed over.
pub open spec fn may(stage: Stage) -> PlannedStage {
    PlannedStage { stage, fatal: false }
}

/// The enrichment stage of the seed and acclaimed jobs.
pub open spec fn enrich_or_skip(omdb_configured: bool) -> PlannedStage {
    if omdb_configured {
        may(Stage::Enrich)
    } else {
        may(Stage::EnrichSkipped)
    }
}

/// The stages of each job, in the order they run.
pub open spec fn job_plan(job: Job, omdb_configured: bool) -> Seq<PlannedStage> {
    match job {
        Job::Sync => seq![
            must(Stage::Connect),
            must(Stage::InitConfig),
            must(Stage::SyncEra(0)),
            must(Stage::SyncEra(1)),
            must(Stage::SyncEra(2)),
            must(Stage::SyncEra(3)),
            must(Stage::Blockbusters),
            may(Stage::SeedGems),
            may(Stage::AcclaimedCandidates),
            may(Stage::InvalidateCache),
        ],
        Job::Enrich => seq![must(Stage::Connect), may(Stage::Enrich)],
        Job::Score => seq![
            must(Stage::Connect),
            may(Stage::Score),
            may(Stage::ClassifyAcclaimed),
            may(Stage::ClassifyWildcards),
            may(Stage::InvalidateCache),
        ],
        Job::ProviderSync => seq![
            must(Stage::Connect),
            may(Stage::SyncProviders),
            may(Stage::InvalidateCache),
        ],
        Job::Seed => seq![
            must(Stage::Connect),
            must(Stage::InitConfig),
            must(Stage::SeedGems),
            enrich_or_skip(omdb_configured),
            must(Stage::Score),
            may(Stage::ClassifyWildcards),
        ],
        Job::AcclaimedIngest => seq![
            must(Stage::Connect),
            must(Stage::InitConfig),
            must(Stage::AcclaimedCandidates),
            enrich_or_skip(omdb_configured),
            may(Stage::ClassifyAcclaimed),
            may(Stage::InvalidateCache),
        ],
        Job::SeedCli => seq![
            must(Stage::Connect),
            must(Stage::Migrate),
            must(Stage::InitConfig),
            may(Stage::SeedGems),
            may(Stage::Blockbusters),
            may(Stage::SyncEra(0)),
            may(Stage::SyncEra(1)),
            may(Stage::SyncEra(2)),
            may(Stage::SyncEra(3)),
            may(Stage::AcclaimedCandidates),
            enrich_or_skip(omdb_configured),
            may(Stage::Score),
            may(Stage::ClassifyAcclaimed),
            may(Stage::ClassifyWildcards),
        ],
        Job::ScheduledSync => seq![
            must(Stage::Connect),
            must(Stage::InitConfig),
            may(Stage::SyncEra(0)),
            may(Stage::SyncEra(1)),
            may(Stage::SyncEra(2)),
            may(Stage::SyncEra(3)),
            may(Stage::Blockbusters),
            may(Stage::AcclaimedCandidates),
            enrich_or_skip(omdb_configured),
            may(Stage::Score),
            may(Stage::ClassifyAcclaimed),
            may(Stage::ClassifyWildcards),
            may(Stage::InvalidateCache),
        ],
    }
}

fn planned(stage: Stage, fatal: bool) -> (r: PlannedStage)
    ensures
        r == (PlannedStage { stage, fatal }),
{
    PlannedStage { stage, fatal }
}

fn enrich_or_skip_exec(omdb_configured: bool) -> (r: PlannedStage)
    ensures
        r == enrich_or_skip(omdb_configured),
{
    if omdb_configured {
        planned(Stage::Enrich, false)
    } else {
        planned(Stage::EnrichSkipped, false)
    }
}

/// The stages of a job, in the order they run.
#[verifier::rlimit(30)]
pub fn plan_job(job: Job, omdb_configured: bool) -> (r: Vec<PlannedStage>)
    ensures
        r@ == job_plan(job, omdb_configured),
{
    let mut v: Vec<PlannedStage> = Vec::new();
    v.push(planned(Stage::Connect, true));
    match job {
        Job::Sync => {
            v.push(planned(Stage::InitConfig, true));
            v.push(planned(Stage::SyncEra(0), true));
            v.push(planned(Stage::SyncEra(1), true));
            v.push(planned(Stage::SyncEra(2), true));
            v.push(planned(Stage::SyncEra(3), true));
            v.push(planned(Stage::Blockbusters, true));
            v.push(planned(Stage::SeedGems, false));
            v.push(planned(Stage::AcclaimedCandidates, false));
            v.push(planned(Stage::InvalidateCache, false));
        },
        Job::Enrich => {
            v.push(planned(Stage::Enrich, false));
        },
        Job::Score => {
            v.push(planned(Stage::Score, false));
            v.push(planned(Stage::ClassifyAcclaimed, false));
            v.push(planned(Stage::ClassifyWildcards, false));
            v.push(planned(Stage::InvalidateCache, false));
        },
        Job::ProviderSync => {
            v.push(planned(Stage::SyncProviders, false));
            v.push(planned(Stage::InvalidateCache, false));
        },
        Job::Seed => {
            v.push(planned(Stage::InitConfig, true));
            v.push(planned(Stage::SeedGems, true));
            v.push(enrich_or_skip_exec(omdb_configured));
            v.push(planned(Stage::Score, true));
            v.push(planned(Stage::ClassifyWildcards, false));
        },
        Job::AcclaimedIngest => {
            v.push(planned(Stage::InitConfig, true));
            v.push(planned(Stage::AcclaimedCandidates, true));
            v.push(enrich_or_skip_exec(omdb_configured));
            v.push(planned(Stage::ClassifyAcclaimed, false));
            v.push(planned(Stage::InvalidateCache, false));
        },
        Job::SeedCli => {
            v.push(planned(Stage::Migrate, true));
            v.push(planned(Stage::InitConfig, true));
            v.push(planned(Stage::SeedGems, false));
            v.push(planned(Stage::Blockbusters, false));
            v.push(planned(Stage::SyncEra(0), false));
            v.push(planned(Stage::SyncEra(1), false));
            v.push(planned(Stage::SyncEra(2), false));
            v.push(planned(Stage::SyncEra(3), false));
            v.push(planned(Stage::AcclaimedCandidates, false));
            v.push(enrich_or_skip_exec(omdb_configured));
            v.push(planned(Stage::Score, false));
            v.push(planned(Stage::ClassifyAcclaimed, false));
            v.push(planned(Stage::ClassifyWildcards, false));
        },
        Job::ScheduledSync => {
            v.push(planned(Stage::InitConfig, true));
            v.push(planned(Stage::SyncEra(0), false));
            v.push(planned(Stage::SyncEra(1), false));
            v.push(planned(Stage::SyncEra(2), false));
            v.push(planned(Stage::SyncEra(3), false));
            v.push(planned(Stage::Blockbusters, false));
            v.push(planned(Stage::AcclaimedCandidates, false));
            v.push(enrich_or_skip_exec(omdb_configured));
            v.push(planned(Stage::Score, false));
            v.push(planned(Stage::ClassifyAcclaimed, false));
            v.push(planned(Stage::ClassifyWildcards, false));
            v.push(planned(Stage::InvalidateCache, false));
        },
    }
    assert(v@ == job_plan(job, omdb_configured));
    v
}

/// The stage that runs after stage `index`, given whether it succeeded: the
/// next one, unless a fatal stage failed or the plan is done.
pub open spec fn next_stage_spec(plan: Seq<PlannedStage>, index: int, succeeded: bool) -> Option<
    int,
> {
    if !succeeded && plan[index].fatal {
        None
    } else if index + 1 < plan.len() {
        Some(index + 1)
    } else {
        None
    }
}

/// The stage that runs after stage `index`.
pub fn next_stage(plan: &Vec<PlannedStage>, index: usize, succeeded: bool) -> (r: Option<usize>)
    requires
        index < plan.len(),
    ensures
        match r {
            Some(i) => next_stage_spec(plan@, index as int, succeeded) == Some(i as int),
            None => next_stage_spec(plan@, index as int, succeeded) is None,
        },
{
    if !succeeded && plan[index].fatal {
        None
    } else if index + 1 < plan.len() {
        Some(index + 1)
    } else {
        None
    }
}

/// Whether `stage` occurs in `plan`.
pub open spec fn plans_stage(plan: Seq<PlannedStage>, stage: Stage) -> bool {
    exists|i: int| 0 <= i < plan.len() && (#[trigger] plan[i]).stage == stage
}

/// Every job first connects, and that stage is fatal. The jobs that change
/// what the film lists show (sync, scoring, provider sync, acclaimed
/// ingestion, the periodic sync) drop the cached lists as their very last stage, and nowhere
/// else; the enrichment and both seed jobs never do.
pub proof fn lemma_plan_shape(job: Job, omdb_configured: bool)
    ensures
        job_plan(job, omdb_configured).len() >= 2,
        job_plan(job, omdb_configured)[0] == must(Stage::Connect),
        (job is Enrich || job is Seed || job is SeedCli) ==> !plans_stage(
            job_plan(job, omdb_configured),
            Stage::InvalidateCache,
        ),
        !(job is Enrich || job is Seed || job is SeedCli) ==> job_plan(job, omdb_configured).last().stage
            == Stage::InvalidateCache,
        forall|i: int|
            0 <= i < job_plan(job, omdb_configured).len() - 1 ==> (#[trigger] job_plan(
                job,
                omdb_configured,
            )[i]).stage != Stage::InvalidateCache,
{
    let p = job_plan(job, omdb_configured);
    if job is Enrich || job is Seed || job is SeedCli {
        assert(!plans_stage(p, Stage::InvalidateCache)) by {
            if plans_stage(p, Stage::InvalidateCache) {
                let i = choose|i: int| 0 <= i < p.len() && (#[trigger] p[i]).stage == Stage::InvalidateCache;
                assert(p[i].stage != Stage::InvalidateCache);
            }
        }
    }
}

// ─────────────────────────── the periodic sync ───────────────────────────

/// Hours between periodic syncs when none is configured.
pub const DEFAULT_SYNC_INTERVAL_HOURS: u64 = 24;

/// The configured interval between periodic syncs, in hours: the value of
/// the setting when it reads as a `u64`, else a day.
pub open spec fn sync_interval_spec(configured: Option<Seq<char>>) -> u64 {
    match configured {
        Some(s) => match parse_u64_spec(s) {
            Some(v) => v as u64,
            None => DEFAULT_SYNC_INTERVAL_HOURS,
        },
        None => DEFAULT_SYNC_INTERVAL_HOURS,
    }
}

/// The interval between periodic syncs (and between periodic clean-ups),
/// in hours, from its setting.
pub fn sync_interval_hours(configured: Option<&str>) -> (r: u64)
    ensures
        r == sync_interval_spec(
            match configured {
                Some(s) => Some(s@),
                None => None,
            },
        ),
{
    match configured {
        Some(s) => {
            let cs = chars_of(s);
            match parse_u64(cs.as_slice()) {
                Some(v) => v,
                None => DEFAULT_SYNC_INTERVAL_HOURS,
            }
        },
        None => DEFAULT_SYNC_INTERVAL_HOURS,
    }
}

/// Whether the periodic sync runs: a non-zero interval and a configured
/// catalogue key.
pub fn scheduled_sync_enabled(interval_hours: u64, tmdb_key: &str) -> (r: bool)
    ensures
        r == (interval_hours > 0 && tmdb_key@.len() > 0),
{
    interval_hours > 0 && tmdb_key.unicode_len() > 0
}

/// The period of a job repeated every `interval_hours`, in seconds, as long
/// as it fits in a `u64`.
pub fn interval_seconds(interval_hours: u64) -> (r: Option<u64>)
    ensures
        match r {
            Some(v) => v == interval_hours * 3600,
            None => interval_hours * 3600 > u64::MAX,
        },
{
    interval_hours.checked_mul(3600)
}

} // verus!
