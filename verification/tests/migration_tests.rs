use browser_selector::migrations::{
    migrate, migration_sql, MigrationRun, CREATE_HISTORY_SQL, CREATE_INDEXES_SQL, CREATE_SELECTIONS_SQL,
    MIGRATION_COUNT,
};

fn indices(last_applied: i64) -> Vec<usize> {
    migrate(last_applied).iter().map(|s| s.index).collect()
}

#[test]
fn fresh_store_gets_every_step() {
    let plan = migrate(-1);
    assert_eq!(plan.len(), MIGRATION_COUNT);
    assert_eq!(plan[0].index, 0);
    assert_eq!(plan[0].sql, CREATE_SELECTIONS_SQL);
    assert_eq!(plan[1].index, 1);
    assert_eq!(plan[1].sql, CREATE_HISTORY_SQL);
    assert_eq!(plan[2].index, 2);
    assert_eq!(plan[2].sql, CREATE_INDEXES_SQL);
}

#[test]
fn migrated_store_gets_no_step() {
    let first = migrate(-1);
    let last = first.last().unwrap().index as i64;
    assert!(migrate(last).is_empty());
    assert!(migrate(2).is_empty());
}

#[test]
fn interrupted_migration_resumes_after_the_last_step() {
    assert_eq!(indices(0), vec![1, 2]);
    assert_eq!(indices(1), vec![2]);
}

#[test]
fn any_negative_index_means_nothing_applied() {
    assert_eq!(indices(-7), vec![0, 1, 2]);
    assert_eq!(indices(i64::MIN), vec![0, 1, 2]);
}

#[test]
fn index_beyond_the_list_needs_nothing() {
    assert!(migrate(3).is_empty());
    assert!(migrate(i64::MAX).is_empty());
}

#[test]
fn step_statements_name_their_tables() {
    assert!(migration_sql(0).contains("CREATE TABLE selections "));
    assert!(migration_sql(1).contains("CREATE TABLE selections_history "));
    assert!(migration_sql(2).contains("CREATE INDEX sel_date"));
}

#[test]
fn run_applies_every_step_in_order() {
    let mut run = MigrationRun::start(-1);
    let mut seen = Vec::new();
    while let Some(step) = run.current() {
        seen.push(step.index);
        assert_eq!(step.sql, migration_sql(step.index));
        run.record(true);
    }
    assert_eq!(seen, vec![0, 1, 2]);
    assert!(!run.has_failed());
    assert_eq!(run.last_applied(), 2);
    assert!(MigrationRun::start(run.last_applied()).current().is_none());
}

#[test]
fn run_stops_at_the_first_failure_and_resumes_there() {
    let mut run = MigrationRun::start(-1);
    assert_eq!(run.current().unwrap().index, 0);
    run.record(true);
    assert_eq!(run.current().unwrap().index, 1);
    run.record(false);
    assert!(run.has_failed());
    assert!(run.current().is_none());
    assert_eq!(run.last_applied(), 0);
    let mut resumed = MigrationRun::start(run.last_applied());
    let mut seen = Vec::new();
    while let Some(step) = resumed.current() {
        seen.push(step.index);
        resumed.record(true);
    }
    assert_eq!(seen, vec![1, 2]);
}

#[test]
fn run_on_a_migrated_store_has_nothing_to_do() {
    assert!(MigrationRun::start(2).current().is_none());
    assert!(MigrationRun::start(99).current().is_none());
    assert_eq!(MigrationRun::start(99).next_index, 3);
    assert_eq!(MigrationRun::start(-4).next_index, 0);
}
