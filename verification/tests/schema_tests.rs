use gem_finder::schema::{pending_migrations, LATEST_SCHEMA_VERSION};

#[test]
fn fresh_database_runs_everything() {
    assert_eq!(pending_migrations(&vec![]), (1..=LATEST_SCHEMA_VERSION).collect::<Vec<i64>>());
}

#[test]
fn only_missing_versions_run() {
    assert_eq!(pending_migrations(&vec![1, 2, 3, 5, 9]), vec![4, 6, 7, 8]);
    assert_eq!(pending_migrations(&vec![9, 1, 42]), vec![2, 3, 4, 5, 6, 7, 8]);
}

#[test]
fn second_run_is_a_no_op() {
    let applied = vec![2, 4];
    let mut all = applied.clone();
    all.extend(pending_migrations(&applied));
    assert!(pending_migrations(&all).is_empty());
}
