use gem_finder::auth::{check_admin_token, AdminAuthError};
use gem_finder::jobs::{
    admit_job, interval_seconds, job_precheck, limit_label, next_stage, plan_job, refusal_status,
    scheduled_sync_enabled, sync_interval_hours, EnrichQuery, Job, JobRefusal, PlannedStage, Stage,
};
use gem_finder::text::parse_u64;

#[test]
fn sync_acclaimed_rejects_missing_token() {
    assert_eq!(
        check_admin_token(None, None, "secret"),
        Err(AdminAuthError::Unauthorized)
    );
}

#[test]
fn admin_gate_accepts_admin_session() {
    assert_eq!(check_admin_token(Some("Bearer abc"), Some(true), ""), Ok(()));
}

#[test]
fn admin_gate_forbids_non_admin_session() {
    assert_eq!(
        check_admin_token(Some("Bearer abc"), Some(false), "secret"),
        Err(AdminAuthError::Forbidden)
    );
}

#[test]
fn admin_gate_without_static_token_is_not_configured() {
    assert_eq!(
        check_admin_token(Some("Bearer abc"), None, ""),
        Err(AdminAuthError::NotConfigured)
    );
}

#[test]
fn admin_gate_static_token() {
    assert_eq!(check_admin_token(Some("Bearer secret"), None, "secret"), Ok(()));
    assert_eq!(
        check_admin_token(Some("Bearer wrong"), None, "secret"),
        Err(AdminAuthError::Unauthorized)
    );
    assert_eq!(
        check_admin_token(Some("Basic secret"), None, "secret"),
        Err(AdminAuthError::Unauthorized)
    );
    assert_eq!(
        check_admin_token(Some("Bearer "), Some(true), "secret"),
        Err(AdminAuthError::Unauthorized)
    );
}

#[test]
fn enrich_limit_defaults_to_unlimited() {
    let q = EnrichQuery { limit: None };
    assert_eq!(q.effective_limit(), i64::MAX);
    assert_eq!(limit_label(q.effective_limit()), "unlimited");
    let q = EnrichQuery { limit: Some(250) };
    assert_eq!(q.effective_limit(), 250);
    assert_eq!(limit_label(250), "250");
    assert_eq!(limit_label(-3), "-3");
}

#[test]
fn job_admission_order() {
    assert_eq!(
        admit_job(Err(AdminAuthError::Unauthorized), Some(""), true),
        Err(JobRefusal::Auth(AdminAuthError::Unauthorized))
    );
    assert_eq!(admit_job(Ok(()), Some(""), true), Err(JobRefusal::ServiceMissing));
    assert_eq!(admit_job(Ok(()), Some("key"), true), Err(JobRefusal::Busy));
    assert_eq!(admit_job(Ok(()), None, true), Err(JobRefusal::Busy));
    assert_eq!(admit_job(Ok(()), None, false), Ok(()));
    assert_eq!(job_precheck(Ok(()), Some("key")), Ok(()));
}

#[test]
fn refusal_statuses() {
    assert_eq!(refusal_status(JobRefusal::Auth(AdminAuthError::Unauthorized)), 401);
    assert_eq!(refusal_status(JobRefusal::Auth(AdminAuthError::Forbidden)), 403);
    assert_eq!(refusal_status(JobRefusal::Auth(AdminAuthError::NotConfigured)), 500);
    assert_eq!(refusal_status(JobRefusal::ServiceMissing), 503);
    assert_eq!(refusal_status(JobRefusal::Busy), 409);
}

fn stages(plan: &[PlannedStage]) -> Vec<Stage> {
    plan.iter().map(|p| p.stage).collect()
}

#[test]
fn sync_plan_runs_eras_then_blockbusters_then_gems() {
    let plan = plan_job(Job::Sync, true);
    assert_eq!(
        stages(&plan),
        vec![
            Stage::Connect,
            Stage::InitConfig,
            Stage::SyncEra(0),
            Stage::SyncEra(1),
            Stage::SyncEra(2),
            Stage::SyncEra(3),
            Stage::Blockbusters,
            Stage::SeedGems,
            Stage::AcclaimedCandidates,
            Stage::InvalidateCache,
        ]
    );
    // A failed era window ends the job.
    assert_eq!(next_stage(&plan, 3, false), None);
    // A failed known-gem seeding is passed over.
    assert_eq!(next_stage(&plan, 7, false), Some(8));
    assert_eq!(next_stage(&plan, 8, true), Some(9));
    assert_eq!(next_stage(&plan, 9, true), None);
}

#[test]
fn seed_plan_depends_on_ratings_key() {
    let with_key = plan_job(Job::Seed, true);
    let without_key = plan_job(Job::Seed, false);
    assert_eq!(with_key[3].stage, Stage::Enrich);
    assert_eq!(without_key[3].stage, Stage::EnrichSkipped);
    assert!(with_key[4].fatal);
    assert!(!stages(&with_key).contains(&Stage::InvalidateCache));
}

#[test]
fn score_plan_never_stops_early() {
    let plan = plan_job(Job::Score, true);
    assert_eq!(next_stage(&plan, 1, false), Some(2));
    assert_eq!(plan.last().unwrap().stage, Stage::InvalidateCache);
}

#[test]
fn enrich_plan_keeps_cache() {
    let plan = plan_job(Job::Enrich, false);
    assert_eq!(stages(&plan), vec![Stage::Connect, Stage::Enrich]);
}

#[test]
fn cli_seed_plan_carries_on() {
    let plan = plan_job(Job::SeedCli, false);
    assert_eq!(plan.len(), 14);
    assert_eq!(plan[1].stage, Stage::Migrate);
    assert!(plan[1].fatal);
    assert_eq!(next_stage(&plan, 5, false), Some(6));
    assert_eq!(plan[10].stage, Stage::EnrichSkipped);
}

#[test]
fn scheduled_sync_plan_tries_every_step() {
    let plan = plan_job(Job::ScheduledSync, false);
    assert_eq!(plan.len(), 13);
    assert_eq!(plan[1].stage, Stage::InitConfig);
    assert_eq!(next_stage(&plan, 1, false), None);
    assert_eq!(next_stage(&plan, 2, false), Some(3));
    assert_eq!(plan[8].stage, Stage::EnrichSkipped);
    assert_eq!(plan.last().unwrap().stage, Stage::InvalidateCache);
}

#[test]
fn sync_interval_defaults_to_a_day() {
    assert_eq!(sync_interval_hours(None), 24);
    assert_eq!(sync_interval_hours(Some("6")), 6);
    assert_eq!(sync_interval_hours(Some("0")), 0);
    assert_eq!(sync_interval_hours(Some("six")), 24);
    assert_eq!(sync_interval_hours(Some("-1")), 24);
    assert!(scheduled_sync_enabled(24, "key"));
    assert!(!scheduled_sync_enabled(0, "key"));
    assert!(!scheduled_sync_enabled(24, ""));
    assert_eq!(interval_seconds(24), Some(86400));
    assert_eq!(interval_seconds(u64::MAX), None);
}

#[test]
fn parse_u64_reads_the_full_range() {
    let digits: Vec<char> = "18446744073709551615".chars().collect();
    assert_eq!(parse_u64(&digits), Some(u64::MAX));
    let over: Vec<char> = "18446744073709551616".chars().collect();
    assert_eq!(parse_u64(&over), None);
    let plus: Vec<char> = "+7".chars().collect();
    assert_eq!(parse_u64(&plus), Some(7));
    let empty: Vec<char> = Vec::new();
    assert_eq!(parse_u64(&empty), None);
}
