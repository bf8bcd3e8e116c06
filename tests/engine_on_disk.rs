use fswp::decision_engine::{DecisionEngine, EngineError, FsStep, StepOutcome};
use fswp::domain::{Decision, FileEntry, FileType, Timestamp};
use std::collections::HashSet;

/// A directory of test files, held in memory.
struct Disk {
    present: HashSet<String>,
}

impl Disk {
    fn with(paths: &[&str]) -> Disk {
        Disk { present: paths.iter().map(|p| p.to_string()).collect() }
    }

    fn holds(&self, p: &str) -> bool {
        self.present.contains(p)
    }

    fn carry_out(&mut self, step: &FsStep) -> StepOutcome {
        match step {
            FsStep::Nothing => StepOutcome::Done,
            FsStep::Rename { from, to } => {
                if !self.present.remove(from) {
                    return StepOutcome::Missing;
                }
                self.present.insert(to.clone());
                StepOutcome::Done
            }
        }
    }
}

fn entry(path: &str) -> FileEntry {
    FileEntry {
        path: path.to_string(),
        name: path.rsplit('/').next().unwrap_or("test").to_string(),
        size: 0,
        modified_date: Timestamp { secs: 0, nanos: 0 },
        file_type: FileType::Text,
    }
}

fn new_engine(paths: &[&str]) -> DecisionEngine {
    DecisionEngine::new(paths.iter().map(|p| entry(p)).collect(), "/tmp/fswp-test".to_string())
}

fn record(engine: &mut DecisionEngine, disk: &mut Disk, index: usize, d: Decision) -> Result<(), EngineError> {
    let step = engine.plan_decision(index, d)?;
    let outcome = disk.carry_out(&step);
    engine.record_decision(index, d, outcome)
}

fn undo(engine: &mut DecisionEngine, disk: &mut Disk) -> Result<(), EngineError> {
    let step = engine.plan_undo()?;
    let outcome = disk.carry_out(&step);
    engine.undo(outcome)
}

#[test]
fn domain_test_decision_engine_new() {
    let engine = new_engine(&["/t/test.txt"]);
    assert_eq!(engine.decisions.len(), 0);
}

#[test]
fn domain_test_decision_engine_record_keep() {
    let mut disk = Disk::with(&["/t/test.txt"]);
    let mut engine = new_engine(&["/t/test.txt"]);
    let result = record(&mut engine, &mut disk, 0, Decision::Keep);
    assert!(result.is_ok());
    assert_eq!(engine.decisions.len(), 1);
    assert!(disk.holds("/t/test.txt"));
}

#[test]
fn domain_test_decision_engine_record_trash() {
    let mut disk = Disk::with(&["/t/test.txt"]);
    let mut engine = new_engine(&["/t/test.txt"]);
    let result = record(&mut engine, &mut disk, 0, Decision::Trash);
    assert!(result.is_ok());
    assert_eq!(engine.decisions.len(), 1);
    assert!(!disk.holds("/t/test.txt"));
    assert!(disk.holds("/tmp/fswp-test/file_0"));
}

#[test]
fn domain_test_decision_engine_undo_keep() {
    let mut disk = Disk::with(&["/t/test.txt"]);
    let mut engine = new_engine(&["/t/test.txt"]);
    record(&mut engine, &mut disk, 0, Decision::Keep).unwrap();
    assert_eq!(engine.decisions.len(), 1);
    let result = undo(&mut engine, &mut disk);
    assert!(result.is_ok());
    assert_eq!(engine.decisions.len(), 0);
    assert!(disk.holds("/t/test.txt"));
}

#[test]
fn domain_test_decision_engine_undo_trash() {
    let mut disk = Disk::with(&["/t/test.txt"]);
    let mut engine = new_engine(&["/t/test.txt"]);
    record(&mut engine, &mut disk, 0, Decision::Trash).unwrap();
    assert!(!disk.holds("/t/test.txt"));
    let result = undo(&mut engine, &mut disk);
    assert!(result.is_ok());
    assert_eq!(engine.decisions.len(), 0);
    assert!(disk.holds("/t/test.txt"));
}

#[test]
fn domain_test_decision_engine_undo_empty() {
    let mut disk = Disk::with(&["/t/test.txt"]);
    let mut engine = new_engine(&["/t/test.txt"]);
    let result = undo(&mut engine, &mut disk);
    assert!(result.is_err());
}

#[test]
fn domain_test_decision_engine_multiple_decisions() {
    let paths = ["/t/file1.txt", "/t/file2.txt", "/t/file3.txt"];
    let mut disk = Disk::with(&paths);
    let mut engine = new_engine(&paths);
    record(&mut engine, &mut disk, 0, Decision::Keep).unwrap();
    record(&mut engine, &mut disk, 1, Decision::Trash).unwrap();
    record(&mut engine, &mut disk, 2, Decision::Keep).unwrap();
    assert_eq!(engine.decisions.len(), 3);
    assert!(disk.holds(paths[0]));
    assert!(!disk.holds(paths[1]));
    assert!(disk.holds(paths[2]));
}

#[test]
fn domain_test_decision_engine_undo_multiple() {
    let paths = ["/t/file1.txt", "/t/file2.txt"];
    let mut disk = Disk::with(&paths);
    let mut engine = new_engine(&paths);
    record(&mut engine, &mut disk, 0, Decision::Trash).unwrap();
    record(&mut engine, &mut disk, 1, Decision::Trash).unwrap();
    assert!(!disk.holds(paths[0]));
    assert!(!disk.holds(paths[1]));
    assert_eq!(engine.decisions.len(), 2);
    undo(&mut engine, &mut disk).unwrap();
    assert!(!disk.holds(paths[0]));
    assert!(disk.holds(paths[1]));
    assert_eq!(engine.decisions.len(), 1);
    undo(&mut engine, &mut disk).unwrap();
    assert!(disk.holds(paths[0]));
    assert!(disk.holds(paths[1]));
    assert_eq!(engine.decisions.len(), 0);
}

#[test]
fn domain_test_decision_engine_trash_nonexistent_file() {
    let mut disk = Disk::with(&[]);
    let mut engine = new_engine(&["/t/nonexistent.txt"]);
    let result = record(&mut engine, &mut disk, 0, Decision::Trash);
    assert!(result.is_err());
    assert_eq!(result, Err(EngineError::NotFound));
    assert_eq!(engine.decisions.len(), 0);
}

#[test]
fn domain_test_decision_engine_get_statistics() {
    let paths = ["/t/file1.txt", "/t/file2.txt", "/t/file3.txt", "/t/file4.txt"];
    let mut disk = Disk::with(&paths);
    let mut engine = new_engine(&paths);
    record(&mut engine, &mut disk, 0, Decision::Keep).unwrap();
    record(&mut engine, &mut disk, 1, Decision::Trash).unwrap();
    record(&mut engine, &mut disk, 2, Decision::Trash).unwrap();
    record(&mut engine, &mut disk, 3, Decision::Keep).unwrap();
    let stats = engine.get_statistics();
    assert_eq!(stats.total_files, 4);
    assert_eq!(stats.kept, 2);
    assert_eq!(stats.trashed, 2);
}

#[test]
fn domain_test_decision_engine_dry_run_trash() {
    let mut disk = Disk::with(&["/t/test.txt"]);
    let mut engine = new_engine(&["/t/test.txt"]);
    engine.set_dry_run(true);
    let result = record(&mut engine, &mut disk, 0, Decision::Trash);
    assert!(result.is_ok());
    assert_eq!(engine.decisions.len(), 1);
    assert!(disk.holds("/t/test.txt"));
}

#[test]
fn domain_test_decision_engine_dry_run_undo() {
    let mut disk = Disk::with(&["/t/test.txt"]);
    let mut engine = new_engine(&["/t/test.txt"]);
    engine.set_dry_run(true);
    record(&mut engine, &mut disk, 0, Decision::Trash).unwrap();
    assert_eq!(engine.decisions.len(), 1);
    let result = undo(&mut engine, &mut disk);
    assert!(result.is_ok());
    assert_eq!(engine.decisions.len(), 0);
    assert!(disk.holds("/t/test.txt"));
}

#[test]
fn decision_engine_test_decision_engine_new() {
    let engine = new_engine(&["/t/test.txt"]);
    assert_eq!(engine.decisions.len(), 0);
}

#[test]
fn decision_engine_test_decision_engine_record_keep() {
    let mut disk = Disk::with(&["/t/test.txt"]);
    let mut engine = new_engine(&["/t/test.txt"]);
    let result = record(&mut engine, &mut disk, 0, Decision::Keep);
    assert!(result.is_ok());
    assert_eq!(engine.decisions.len(), 1);
    assert!(disk.holds("/t/test.txt"));
}

#[test]
fn decision_engine_test_decision_engine_record_trash() {
    let mut disk = Disk::with(&["/t/test.txt"]);
    let mut engine = new_engine(&["/t/test.txt"]);
    let result = record(&mut engine, &mut disk, 0, Decision::Trash);
    assert!(result.is_ok());
    assert_eq!(engine.decisions.len(), 1);
    assert!(!disk.holds("/t/test.txt"));
    assert!(disk.holds("/tmp/fswp-test/file_0"));
}

#[test]
fn decision_engine_test_decision_engine_undo_keep() {
    let mut disk = Disk::with(&["/t/test.txt"]);
    let mut engine = new_engine(&["/t/test.txt"]);
    record(&mut engine, &mut disk, 0, Decision::Keep).unwrap();
    assert_eq!(engine.decisions.len(), 1);
    let result = undo(&mut engine, &mut disk);
    assert!(result.is_ok());
    assert_eq!(engine.decisions.len(), 0);
    assert!(disk.holds("/t/test.txt"));
}

#[test]
fn decision_engine_test_decision_engine_undo_trash() {
    let mut disk = Disk::with(&["/t/test.txt"]);
    let mut engine = new_engine(&["/t/test.txt"]);
    record(&mut engine, &mut disk, 0, Decision::Trash).unwrap();
    assert!(!disk.holds("/t/test.txt"));
    let result = undo(&mut engine, &mut disk);
    assert!(result.is_ok());
    assert_eq!(engine.decisions.len(), 0);
    assert!(disk.holds("/t/test.txt"));
}

#[test]
fn decision_engine_test_decision_engine_undo_empty() {
    let mut disk = Disk::with(&["/t/test.txt"]);
    let mut engine = new_engine(&["/t/test.txt"]);
    let result = undo(&mut engine, &mut disk);
    assert!(result.is_err());
}

#[test]
fn decision_engine_test_decision_engine_multiple_decisions() {
    let paths = ["/t/file1.txt", "/t/file2.txt", "/t/file3.txt"];
    let mut disk = Disk::with(&paths);
    let mut engine = new_engine(&paths);
    record(&mut engine, &mut disk, 0, Decision::Keep).unwrap();
    record(&mut engine, &mut disk, 1, Decision::Trash).unwrap();
    record(&mut engine, &mut disk, 2, Decision::Keep).unwrap();
    assert_eq!(engine.decisions.len(), 3);
    assert!(disk.holds(paths[0]));
    assert!(!disk.holds(paths[1]));
    assert!(disk.holds(paths[2]));
}

#[test]
fn decision_engine_test_decision_engine_undo_multiple() {
    let paths = ["/t/file1.txt", "/t/file2.txt"];
    let mut disk = Disk::with(&paths);
    let mut engine = new_engine(&paths);
    record(&mut engine, &mut disk, 0, Decision::Trash).unwrap();
    record(&mut engine, &mut disk, 1, Decision::Trash).unwrap();
    assert!(!disk.holds(paths[0]));
    assert!(!disk.holds(paths[1]));
    assert_eq!(engine.decisions.len(), 2);
    undo(&mut engine, &mut disk).unwrap();
    assert!(!disk.holds(paths[0]));
    assert!(disk.holds(paths[1]));
    assert_eq!(engine.decisions.len(), 1);
    undo(&mut engine, &mut disk).unwrap();
    assert!(disk.holds(paths[0]));
    assert!(disk.holds(paths[1]));
    assert_eq!(engine.decisions.len(), 0);
}

#[test]
fn decision_engine_test_decision_engine_trash_nonexistent_file() {
    let mut disk = Disk::with(&[]);
    let mut engine = new_engine(&["/t/nonexistent.txt"]);
    let result = record(&mut engine, &mut disk, 0, Decision::Trash);
    assert!(result.is_err());
    assert_eq!(result, Err(EngineError::NotFound));
    assert_eq!(engine.decisions.len(), 0);
}

#[test]
fn decision_engine_test_decision_engine_get_statistics() {
    let paths = ["/t/file1.txt", "/t/file2.txt", "/t/file3.txt", "/t/file4.txt"];
    let mut disk = Disk::with(&paths);
    let mut engine = new_engine(&paths);
    record(&mut engine, &mut disk, 0, Decision::Keep).unwrap();
    record(&mut engine, &mut disk, 1, Decision::Trash).unwrap();
    record(&mut engine, &mut disk, 2, Decision::Trash).unwrap();
    record(&mut engine, &mut disk, 3, Decision::Keep).unwrap();
    let stats = engine.get_statistics();
    assert_eq!(stats.total_files, 4);
    assert_eq!(stats.kept, 2);
    assert_eq!(stats.trashed, 2);
}

#[test]
fn decision_engine_test_decision_engine_dry_run_trash() {
    let mut disk = Disk::with(&["/t/test.txt"]);
    let mut engine = new_engine(&["/t/test.txt"]);
    engine.set_dry_run(true);
    let result = record(&mut engine, &mut disk, 0, Decision::Trash);
    assert!(result.is_ok());
    assert_eq!(engine.decisions.len(), 1);
    assert!(disk.holds("/t/test.txt"));
}

#[test]
fn decision_engine_test_decision_engine_dry_run_undo() {
    let mut disk = Disk::with(&["/t/test.txt"]);
    let mut engine = new_engine(&["/t/test.txt"]);
    engine.set_dry_run(true);
    record(&mut engine, &mut disk, 0, Decision::Trash).unwrap();
    assert_eq!(engine.decisions.len(), 1);
    let result = undo(&mut engine, &mut disk);
    assert!(result.is_ok());
    assert_eq!(engine.decisions.len(), 0);
    assert!(disk.holds("/t/test.txt"));
}

#[test]
fn commit_twice_trashes_each_staged_file_once() {
    let paths = ["/t/a", "/t/b", "/t/c"];
    let mut disk = Disk::with(&paths);
    let mut engine = new_engine(&paths);
    record(&mut engine, &mut disk, 0, Decision::Trash).unwrap();
    record(&mut engine, &mut disk, 1, Decision::Keep).unwrap();
    record(&mut engine, &mut disk, 2, Decision::Trash).unwrap();
    let mut trashed = Vec::new();
    for _ in 0..2 {
        for staged in engine.commit_plan() {
            if disk.present.remove(&staged) {
                trashed.push(staged);
            }
        }
    }
    assert_eq!(trashed, vec!["/tmp/fswp-test/file_0".to_string(), "/tmp/fswp-test/file_2".to_string()]);
}

#[test]
fn undo_after_commit_reports_the_missing_staged_file() {
    let mut disk = Disk::with(&["/t/a"]);
    let mut engine = new_engine(&["/t/a"]);
    record(&mut engine, &mut disk, 0, Decision::Trash).unwrap();
    for staged in engine.commit_plan() {
        disk.present.remove(&staged);
    }
    assert_eq!(undo(&mut engine, &mut disk), Err(EngineError::NotFound));
    assert_eq!(engine.decisions.len(), 0);
}
