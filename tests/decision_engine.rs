use fswp::decision_engine::{DecisionEngine, EngineError, FsStep, StepOutcome};
use fswp::domain::{Decision, DecisionStatistics, FileEntry, FileType, Timestamp};

fn entry(path: &str) -> FileEntry {
    FileEntry {
        path: path.to_string(),
        name: path.rsplit('/').next().unwrap().to_string(),
        size: 10,
        modified_date: Timestamp { secs: 0, nanos: 0 },
        file_type: FileType::Text,
    }
}

fn engine(n: usize) -> DecisionEngine {
    let files = (0..n).map(|i| entry(&format!("/home/u/file{}.txt", i))).collect();
    DecisionEngine::new(files, "/tmp/stage".to_string())
}

fn rename(from: &str, to: &str) -> FsStep {
    FsStep::Rename { from: from.to_string(), to: to.to_string() }
}

fn same_step(a: &FsStep, b: &FsStep) -> bool {
    match (a, b) {
        (FsStep::Nothing, FsStep::Nothing) => true,
        (FsStep::Rename { from: f1, to: t1 }, FsStep::Rename { from: f2, to: t2 }) => f1 == f2 && t1 == t2,
        _ => false,
    }
}

#[test]
fn domain_test_decision_engine_is_dry_run() {
    let mut e = engine(1);
    assert!(!e.is_dry_run());
    e.set_dry_run(true);
    assert!(e.is_dry_run());
    e.set_dry_run(false);
    assert!(!e.is_dry_run());
}

#[test]
fn decision_engine_test_decision_engine_is_dry_run() {
    let mut e = engine(2);
    assert!(!e.is_dry_run());
    e.set_dry_run(true);
    assert!(e.is_dry_run());
}

#[test]
fn keep_trash_keep_statistics_and_staging() {
    let mut e = engine(3);
    assert!(same_step(&e.plan_decision(0, Decision::Keep).unwrap(), &FsStep::Nothing));
    assert_eq!(e.record_decision(0, Decision::Keep, StepOutcome::Done), Ok(()));
    let step = e.plan_decision(1, Decision::Trash).unwrap();
    assert!(same_step(&step, &rename("/home/u/file1.txt", "/tmp/stage/file_1")));
    assert_eq!(e.record_decision(1, Decision::Trash, StepOutcome::Done), Ok(()));
    assert_eq!(e.record_decision(2, Decision::Keep, StepOutcome::Done), Ok(()));
    assert_eq!(e.get_statistics(), DecisionStatistics { total_files: 3, kept: 2, trashed: 1 });
    assert_eq!(e.commit_plan(), vec!["/tmp/stage/file_1".to_string()]);
}

#[test]
fn undo_on_a_fresh_engine_is_invalid_input() {
    let mut e = engine(2);
    assert!(matches!(e.plan_undo(), Err(EngineError::InvalidInput)));
    assert_eq!(e.undo(StepOutcome::Done), Err(EngineError::InvalidInput));
}

#[test]
fn trash_of_a_missing_file_is_not_found_and_not_recorded() {
    let mut e = engine(2);
    assert_eq!(e.record_decision(1, Decision::Trash, StepOutcome::Missing), Err(EngineError::NotFound));
    assert_eq!(e.decision_count(), 0);
    assert_eq!(e.decisions.len(), 0);
}

#[test]
fn failed_rename_is_a_filesystem_error_and_not_recorded() {
    let mut e = engine(2);
    assert_eq!(e.record_decision(0, Decision::Trash, StepOutcome::Failed), Err(EngineError::FilesystemError));
    assert_eq!(e.decision_count(), 0);
}

#[test]
fn out_of_bounds_index_is_invalid_input() {
    let mut e = engine(2);
    assert!(matches!(e.plan_decision(2, Decision::Keep), Err(EngineError::InvalidInput)));
    assert_eq!(e.record_decision(2, Decision::Keep, StepOutcome::Done), Err(EngineError::InvalidInput));
    assert_eq!(e.decision_count(), 0);
}

#[test]
fn trash_then_undo_renames_back() {
    let mut e = engine(12);
    assert_eq!(e.record_decision(11, Decision::Trash, StepOutcome::Done), Ok(()));
    let step = e.plan_undo().unwrap();
    assert!(same_step(&step, &rename("/tmp/stage/file_11", "/home/u/file11.txt")));
    assert_eq!(e.undo(StepOutcome::Done), Ok(()));
    assert_eq!(e.decision_count(), 0);
}

#[test]
fn keep_then_undo_touches_nothing() {
    let mut e = engine(1);
    assert_eq!(e.record_decision(0, Decision::Keep, StepOutcome::Failed), Ok(()));
    assert!(same_step(&e.plan_undo().unwrap(), &FsStep::Nothing));
    assert_eq!(e.undo(StepOutcome::Failed), Ok(()));
    assert_eq!(e.decision_count(), 0);
}

#[test]
fn undo_with_missing_staged_file_still_drops_the_record() {
    let mut e = engine(1);
    assert_eq!(e.record_decision(0, Decision::Trash, StepOutcome::Done), Ok(()));
    assert_eq!(e.undo(StepOutcome::Missing), Err(EngineError::NotFound));
    assert_eq!(e.decision_count(), 0);
}

#[test]
fn dry_run_records_without_moving() {
    let mut e = engine(2);
    e.set_dry_run(true);
    assert!(same_step(&e.plan_decision(0, Decision::Trash).unwrap(), &FsStep::Nothing));
    assert_eq!(e.record_decision(0, Decision::Trash, StepOutcome::Missing), Ok(()));
    assert_eq!(e.record_decision(1, Decision::Keep, StepOutcome::Done), Ok(()));
    assert_eq!(e.get_statistics(), DecisionStatistics { total_files: 2, kept: 1, trashed: 1 });
    assert!(same_step(&e.plan_undo().unwrap(), &FsStep::Nothing));
    assert_eq!(e.undo(StepOutcome::Failed), Ok(()));
    assert!(same_step(&e.plan_undo().unwrap(), &FsStep::Nothing));
    assert_eq!(e.undo(StepOutcome::Failed), Ok(()));
    assert_eq!(e.get_statistics(), DecisionStatistics { total_files: 2, kept: 0, trashed: 0 });
}

#[test]
fn commit_plan_lists_each_staged_file_once() {
    let mut e = engine(3);
    e.set_dry_run(true);
    assert_eq!(e.record_decision(2, Decision::Trash, StepOutcome::Done), Ok(()));
    assert_eq!(e.record_decision(0, Decision::Trash, StepOutcome::Done), Ok(()));
    assert_eq!(e.record_decision(2, Decision::Trash, StepOutcome::Done), Ok(()));
    assert_eq!(e.record_decision(1, Decision::Keep, StepOutcome::Done), Ok(()));
    assert_eq!(
        e.commit_plan(),
        vec!["/tmp/stage/file_2".to_string(), "/tmp/stage/file_0".to_string()]
    );
    assert_eq!(e.commit_plan(), e.commit_plan());
}

#[test]
fn staged_path_and_decimal() {
    let e = engine(1);
    assert_eq!(e.staged_path(0), "/tmp/stage/file_0");
    assert_eq!(e.staged_path(1234567), "/tmp/stage/file_1234567");
    assert_eq!(fswp::text::decimal_string(90210), "90210");
    assert_eq!(e.staging_dir(), "/tmp/stage");
    assert_eq!(e.file_count(), 1);
}
