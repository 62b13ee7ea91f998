use bbm::import::{plan_import, DuplicateStrategy, DuplicateTimestamp, ImportAction, ImportOutcome};

fn texts(v: &[&str]) -> Vec<String> {
    v.iter().map(|s| s.to_string()).collect()
}

const A: &str = "2026-07-20T09:00:00.000Z";
const B: &str = "2026-07-20T10:00:00.000Z";
const C: &str = "2026-07-20T11:00:00.000Z";

#[test]
fn import_error_strategy_rejects_duplicates_atomically() {
    let err = plan_import(&texts(&[B, A, C]), &texts(&[A]), DuplicateStrategy::Error).unwrap_err();
    assert_eq!(err.index, 1);
    assert_eq!(err.timestamp, A);
    assert_eq!(
        err.message(),
        "a measurement already exists at 2026-07-20T09:00:00.000Z (pass --on-duplicate skip or update to override)"
    );
}

#[test]
fn import_skip_strategy_inserts_new_and_skips_existing() {
    let (acts, outcome) = plan_import(&texts(&[A, B]), &texts(&[A]), DuplicateStrategy::Skip).unwrap();
    assert_eq!(acts, vec![ImportAction::Skip, ImportAction::Insert]);
    assert_eq!(outcome, ImportOutcome { inserted: 1, skipped: 1, updated: 0 });
}

#[test]
fn import_update_strategy_overwrites_existing() {
    let (acts, outcome) = plan_import(&texts(&[A, B]), &texts(&[A]), DuplicateStrategy::Update).unwrap();
    assert_eq!(acts, vec![ImportAction::Update, ImportAction::Insert]);
    assert_eq!(outcome, ImportOutcome { inserted: 1, skipped: 0, updated: 1 });
}

#[test]
fn import_error_strategy_catches_within_file_duplicates() {
    let err = plan_import(&texts(&[A, B, A]), &texts(&[]), DuplicateStrategy::Error).unwrap_err();
    assert_eq!(err.index, 2);
    assert_eq!(err.timestamp, A);
}

#[test]
fn import_with_no_duplicates_inserts_all() {
    let (acts, outcome) = plan_import(&texts(&[A, B, C]), &texts(&[]), DuplicateStrategy::Error).unwrap();
    assert_eq!(acts, vec![ImportAction::Insert; 3]);
    assert_eq!(outcome, ImportOutcome { inserted: 3, skipped: 0, updated: 0 });
}

#[test]
fn every_row_is_accounted_for() {
    // The law: inserted + skipped + updated is the number of rows.
    for strategy in [DuplicateStrategy::Skip, DuplicateStrategy::Update] {
        let rows = texts(&[A, B, A, C, B]);
        let (acts, o) = plan_import(&rows, &texts(&[C]), strategy).unwrap();
        assert_eq!(acts.len(), rows.len());
        assert_eq!((o.inserted + o.skipped + o.updated) as usize, rows.len());
        assert_eq!(o.inserted, 2);
    }
}

#[test]
fn duplicates_within_a_file_are_not_inserted_twice() {
    let (acts, _) = plan_import(&texts(&[A, A]), &texts(&[]), DuplicateStrategy::Skip).unwrap();
    assert_eq!(acts, vec![ImportAction::Insert, ImportAction::Skip]);
    let (acts, _) = plan_import(&texts(&[A, A]), &texts(&[]), DuplicateStrategy::Update).unwrap();
    assert_eq!(acts, vec![ImportAction::Insert, ImportAction::Update]);
}

#[test]
fn an_empty_import_does_nothing() {
    let (acts, outcome) = plan_import(&texts(&[]), &texts(&[A]), DuplicateStrategy::Error).unwrap();
    assert!(acts.is_empty());
    assert_eq!(outcome, ImportOutcome { inserted: 0, skipped: 0, updated: 0 });
    let d = DuplicateTimestamp { index: 0, timestamp: String::from("t") };
    assert_eq!(d.index, 0);
}

#[test]
fn a_refusal_names_the_first_collision() {
    // B repeats at 2 and C is stored at 3: the first collision is row 2.
    let err = plan_import(&texts(&[A, B, B, C]), &texts(&[C]), DuplicateStrategy::Error).unwrap_err();
    assert_eq!(err.index, 2);
    assert_eq!(err.timestamp, B);
    let err = plan_import(&texts(&[A, C, B, A]), &texts(&[C]), DuplicateStrategy::Error).unwrap_err();
    assert_eq!(err.index, 1);
    assert_eq!(err.timestamp, C);
}
