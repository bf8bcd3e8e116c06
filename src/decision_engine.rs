//! Staged, undoable keep/trash decisions over a fixed list of files.
//!
//! The engine decides; the caller touches the disk. For each decision the
//! caller asks for the step it must carry out (`plan_decision`, `plan_undo`),
//! performs it, and hands back how it went (`record_decision`, `undo`).
//! A trashed file is first renamed into a staging directory, so that undo is
//! a rename back; `commit_plan` lists the staged files that are to go to the
//! system trash.
use vstd::prelude::*;
use crate::domain::{Decision, DecisionStatistics, FileEntry};
use crate::text::{decimal, decimal_string};

verus! {

/// Why a decision or an undo was refused.
#[derive(Debug, Clone, Copy, PartialEq, Eq, Structural)]
pub enum EngineError {
    /// An index out of bounds, or nothing to undo.
    InvalidInput,
    /// The file to move is missing.
    NotFound,
    /// Moving the file failed.
    FilesystemError,
}

/// What must happen on disk before a decision (or its undo) counts.
#[derive(Debug, Clone)]
pub enum FsStep {
    Nothing,
    Rename { from: String, to: String },
}

/// The mathematical form of an [`FsStep`].
pub enum StepModel {
    Nothing,
    Rename(Seq<char>, Seq<char>),
}

impl View for FsStep {
    type V = StepModel;

    open spec fn view(&self) -> StepModel {
        match self {
            FsStep::Nothing => StepModel::Nothing,
            FsStep::Rename { from, to } => StepModel::Rename(from@, to@),
        }
    }
}

/// How the caller's attempt at a planned rename went.
#[derive(Debug, Clone, Copy, PartialEq, Eq, Structural)]
pub enum StepOutcome {
    /// The file was moved.
    Done,
    /// The file to move did not exist.
    Missing,
    /// The file existed but could not be moved.
    Failed,
}

/// Number of records in `ds` that carry decision `d`.
pub open spec fn count_of(ds: Seq<(usize, Decision)>, d: Decision) -> nat
    decreases ds.len(),
{
    if ds.len() == 0 {
        0
    } else {
        count_of(ds.drop_last(), d) + if ds.last().1 == d {
            1nat
        } else {
            0nat
        }
    }
}

/// Indices of the trash records of `ds`, each once, in the order of their
/// first record.
pub open spec fn trash_indices(ds: Seq<(usize, Decision)>) -> Seq<usize>
    decreases ds.len(),
{
    if ds.len() == 0 {
        Seq::empty()
    } else {
        let prev = trash_indices(ds.drop_last());
        if ds.last().1 == Decision::Trash && !prev.contains(ds.last().0) {
            prev.push(ds.last().0)
        } else {
            prev
        }
    }
}

/// The state of an engine: the paths of its files, its records, its staging
/// directory and whether it runs dry.
pub struct EngineModel {
    pub paths: Seq<Seq<char>>,
    pub decisions: Seq<(usize, Decision)>,
    pub staging_dir: Seq<char>,
    pub dry_run: bool,
}

impl EngineModel {
    /// Every record names one of the files.
    pub open spec fn wf(self) -> bool {
        forall|k: int| 0 <= k < self.decisions.len() ==> #[trigger] self.decisions[k].0 < self.paths.len()
    }

    /// Where file `i` waits while it is staged for the trash.
    pub open spec fn staged_path(self, i: nat) -> Seq<char> {
        self.staging_dir + "/file_"@ + decimal(i)
    }

    pub open spec fn with_record(self, i: usize, d: Decision) -> EngineModel {
        EngineModel { decisions: self.decisions.push((i, d)), ..self }
    }

    /// The step that must succeed before decision `d` on file `i` is recorded.
    pub open spec fn decision_step(self, i: int, d: Decision) -> Result<StepModel, EngineError> {
        if i < 0 || i >= self.paths.len() {
            Err(EngineError::InvalidInput)
        } else if d == Decision::Keep || self.dry_run {
            Ok(StepModel::Nothing)
        } else {
            Ok(StepModel::Rename(self.paths[i], self.staged_path(i as nat)))
        }
    }

    /// The engine and the result after recording decision `d` on file `i`,
    /// the planned step having ended with `o`.
    pub open spec fn record(self, i: usize, d: Decision, o: StepOutcome) -> (EngineModel, Result<(), EngineError>) {
        match self.decision_step(i as int, d) {
            Err(e) => (self, Err(e)),
            Ok(StepModel::Nothing) => (self.with_record(i, d), Ok(())),
            Ok(StepModel::Rename(_, _)) => match o {
                StepOutcome::Done => (self.with_record(i, d), Ok(())),
                StepOutcome::Missing => (self, Err(EngineError::NotFound)),
                StepOutcome::Failed => (self, Err(EngineError::FilesystemError)),
            },
        }
    }

    /// The step that undoes the last record.
    pub open spec fn undo_step(self) -> Result<StepModel, EngineError> {
        if self.decisions.len() == 0 {
            Err(EngineError::InvalidInput)
        } else if self.decisions.last().1 == Decision::Keep || self.dry_run {
            Ok(StepModel::Nothing)
        } else {
            let i = self.decisions.last().0;
            Ok(StepModel::Rename(self.staged_path(i as nat), self.paths[i as int]))
        }
    }

    /// The engine and the result after undoing the last record, the planned
    /// step having ended with `o`. The record is dropped in any case.
    pub open spec fn undo(self, o: StepOutcome) -> (EngineModel, Result<(), EngineError>) {
        let popped = EngineModel { decisions: self.decisions.drop_last(), ..self };
        match self.undo_step() {
            Err(e) => (self, Err(e)),
            Ok(StepModel::Nothing) => (popped, Ok(())),
            Ok(StepModel::Rename(_, _)) => match o {
                StepOutcome::Done => (popped, Ok(())),
                StepOutcome::Missing => (popped, Err(EngineError::NotFound)),
                StepOutcome::Failed => (popped, Err(EngineError::FilesystemError)),
            },
        }
    }

    /// The staged files that a commit hands to the system trash, each once.
    pub open spec fn commit_targets(self) -> Seq<Seq<char>> {
        trash_indices(self.decisions).map(|k: int, i: usize| self.staged_path(i as nat))
    }
}

/// Decision engine over a fixed list of files.
#[derive(Debug)]
pub struct DecisionEngine {
    pub files: Vec<FileEntry>,
    pub decisions: Vec<(usize, Decision)>,
    staging_dir: String,
    dry_run: bool,
}

impl View for DecisionEngine {
    type V = EngineModel;

    closed spec fn view(&self) -> EngineModel {
        EngineModel {
            paths: self.files@.map(|k: int, f: FileEntry| f.path@),
            decisions: self.decisions@,
            staging_dir: self.staging_dir@,
            dry_run: self.dry_run,
        }
    }
}

impl DecisionEngine {
    /// An engine over `files` that stages trashed files under `staging_dir`
    /// (a directory path without a trailing separator); nothing is recorded
    /// yet and dry run is off.
    pub fn new(files: Vec<FileEntry>, staging_dir: String) -> (r: DecisionEngine)
        ensures
            r@.paths == files@.map(|k: int, f: FileEntry| f.path@),
            r@.decisions == Seq::<(usize, Decision)>::empty(),
            r@.staging_dir == staging_dir@,
            !r@.dry_run,
            r@.wf(),
    {
        DecisionEngine { files, decisions: Vec::new(), staging_dir, dry_run: false }
    }

    /// Turns dry run on or off: in dry run no decision moves a file.
    pub fn set_dry_run(&mut self, dry_run: bool)
        ensures
            final(self)@ == (EngineModel { dry_run, ..old(self)@ }),
    {
        self.dry_run = dry_run;
    }

    pub fn is_dry_run(&self) -> (r: bool)
        ensures
            r == self@.dry_run,
    {
        self.dry_run
    }

    /// The directory where trashed files wait for the commit.
    pub fn staging_dir(&self) -> (r: &String)
        ensures
            r@ == self@.staging_dir,
    {
        &self.staging_dir
    }

    /// Number of files under review.
    pub fn file_count(&self) -> (r: usize)
        ensures
            r == self@.paths.len(),
    {
        self.files.len()
    }

    /// Number of decisions recorded and not undone.
    pub fn decision_count(&self) -> (r: usize)
        ensures
            r == self@.decisions.len(),
    {
        self.decisions.len()
    }

    /// Where file `index` waits while it is staged for the trash.
    pub fn staged_path(&self, index: usize) -> (r: String)
        ensures
            r@ == self@.staged_path(index as nat),
    {
        let mut p = self.staging_dir.clone();
        p.append("/file_");
        let num = decimal_string(index as u64);
        p.append(num.as_str());
        p
    }

    /// The step the caller must carry out before decision `decision` on
    /// file `index` can be recorded.
    pub fn plan_decision(&self, index: usize, decision: Decision) -> (r: Result<FsStep, EngineError>)
        ensures
            match (r, self@.decision_step(index as int, decision)) {
                (Ok(s), Ok(m)) => s@ == m,
                (Err(e), Err(f)) => e == f,
                _ => false,
            },
    {
        if index >= self.files.len() {
            return Err(EngineError::InvalidInput);
        }
        match decision {
            Decision::Keep => Ok(FsStep::Nothing),
            Decision::Trash => {
                if self.dry_run {
                    Ok(FsStep::Nothing)
                } else {
                    let from = self.files[index].path.clone();
                    proof {
                        assert(self@.paths[index as int] == self.files@[index as int].path@);
                    }
                    let to = self.staged_path(index);
                    Ok(FsStep::Rename { from, to })
                }
            }
        }
    }

    /// Records decision `decision` on file `index`, given how the step from
    /// `plan_decision` went (`outcome` is read only when that step was a
    /// rename). A decision whose rename did not happen is not recorded.
    pub fn record_decision(&mut self, index: usize, decision: Decision, outcome: StepOutcome) -> (r: Result<(), EngineError>)
        requires
            old(self)@.wf(),
        ensures
            (final(self)@, r) == old(self)@.record(index, decision, outcome),
            final(self)@.wf(),
    {
        if index >= self.files.len() {
            return Err(EngineError::InvalidInput);
        }
        let moves = match decision {
            Decision::Keep => false,
            Decision::Trash => !self.dry_run,
        };
        if moves {
            match outcome {
                StepOutcome::Done => {},
                StepOutcome::Missing => {
                    return Err(EngineError::NotFound);
                },
                StepOutcome::Failed => {
                    return Err(EngineError::FilesystemError);
                },
            }
        }
        self.decisions.push((index, decision));
        proof {
            assert(self@.decisions == old(self)@.decisions.push((index, decision)));
            assert(self@ == old(self)@.with_record(index, decision));
        }
        Ok(())
    }

    /// The step the caller must carry out to undo the last record.
    pub fn plan_undo(&self) -> (r: Result<FsStep, EngineError>)
        requires
            self@.wf(),
        ensures
            match (r, self@.undo_step()) {
                (Ok(s), Ok(m)) => s@ == m,
                (Err(e), Err(f)) => e == f,
                _ => false,
            },
    {
        let n = self.decisions.len();
        if n == 0 {
            return Err(EngineError::InvalidInput);
        }
        let (index, decision) = self.decisions[n - 1];
        if self.dry_run {
            return Ok(FsStep::Nothing);
        }
        match decision {
            Decision::Keep => Ok(FsStep::Nothing),
            Decision::Trash => {
                proof {
                    assert(self@.decisions[n - 1].0 < self@.paths.len());
                    assert(self@.paths[index as int] == self.files@[index as int].path@);
                }
                let from = self.staged_path(index);
                let to = self.files[index].path.clone();
                Ok(FsStep::Rename { from, to })
            },
        }
    }

    /// Drops the last record, given how the step from `plan_undo` went
    /// (`outcome` is read only when that step was a rename).
    pub fn undo(&mut self, outcome: StepOutcome) -> (r: Result<(), EngineError>)
        requires
            old(self)@.wf(),
        ensures
            (final(self)@, r) == old(self)@.undo(outcome),
            final(self)@.wf(),
    {
        let popped = self.decisions.pop();
        match popped {
            None => Err(EngineError::InvalidInput),
            Some((_, decision)) => {
                proof {
                    assert(self@.decisions == old(self)@.decisions.drop_last());
                }
                let moves = match decision {
                    Decision::Keep => false,
                    Decision::Trash => !self.dry_run,
                };
                if !moves {
                    return Ok(());
                }
                match outcome {
                    StepOutcome::Done => Ok(()),
                    StepOutcome::Missing => Err(EngineError::NotFound),
                    StepOutcome::Failed => Err(EngineError::FilesystemError),
                }
            },
        }
    }

    /// Counts of the files and of the recorded decisions of each kind.
    pub fn get_statistics(&self) -> (r: DecisionStatistics)
        ensures
            r.total_files == self@.paths.len(),
            r.kept == count_of(self@.decisions, Decision::Keep),
            r.trashed == count_of(self@.decisions, Decision::Trash),
    {
        let mut kept: usize = 0;
        let mut trashed: usize = 0;
        let n = self.decisions.len();
        let mut k: usize = 0;
        while k < n
            invariant
                n == self.decisions@.len(),
                k <= n,
                kept == count_of(self.decisions@.subrange(0, k as int), Decision::Keep),
                trashed == count_of(self.decisions@.subrange(0, k as int), Decision::Trash),
                kept + trashed == k,
            decreases n - k,
        {
            let ghost pre = self.decisions@.subrange(0, k as int);
            assert(self.decisions@.subrange(0, k + 1).drop_last() == pre);
            match self.decisions[k].1 {
                Decision::Keep => kept = kept + 1,
                Decision::Trash => trashed = trashed + 1,
            }
            k = k + 1;
        }
        assert(self.decisions@.subrange(0, n as int) == self.decisions@);
        DecisionStatistics { total_files: self.files.len(), kept, trashed }
    }

    /// The staged files to hand to the system trash on commit, each once, in
    /// the order of their first trash record. The caller skips those no
    /// longer on disk (already committed, or undone).
    pub fn commit_plan(&self) -> (r: Vec<String>)
        ensures
            r@.len() == self@.commit_targets().len(),
            forall|j: int| 0 <= j < r@.len() ==> #[trigger] r@[j]@ == self@.commit_targets()[j],
    {
        let mut seen: Vec<usize> = Vec::new();
        let mut out: Vec<String> = Vec::new();
        let n = self.decisions.len();
        let mut k: usize = 0;
        while k < n
            invariant
                n == self.decisions@.len(),
                k <= n,
                seen@ == trash_indices(self.decisions@.subrange(0, k as int)),
                out@.len() == seen@.len(),
                forall|j: int| 0 <= j < out@.len() ==> #[trigger] out@[j]@ == self@.staged_path(seen@[j] as nat),
            decreases n - k,
        {
            let ghost pre = self.decisions@.subrange(0, k as int);
            assert(self.decisions@.subrange(0, k + 1).drop_last() == pre);
            let (index, decision) = self.decisions[k];
            if decision == Decision::Trash {
                let mut found = false;
                let mut j: usize = 0;
                while j < seen.len()
                    invariant
                        j <= seen@.len(),
                        found == (exists|t: int| 0 <= t < j && seen@[t] == index),
                    decreases seen@.len() - j,
                {
                    if seen[j] == index {
                        found = true;
                    }
                    j = j + 1;
                }
                assert(found == seen@.contains(index));
                if !found {
                    let p = self.staged_path(index);
                    seen.push(index);
                    out.push(p);
                }
            }
            k = k + 1;
        }
        assert(self.decisions@.subrange(0, n as int) == self.decisions@);
        out
    }
}

/// What a commit does against the set `present` of files on disk: each
/// target still present goes to the trash (and leaves the set), each other
/// target is skipped. The result is the sequence of trashed files and what
/// is left on disk.
pub open spec fn commit_run(targets: Seq<Seq<char>>, present: Set<Seq<char>>) -> (Seq<Seq<char>>, Set<Seq<char>>)
    decreases targets.len(),
{
    if targets.len() == 0 {
        (Seq::empty(), present)
    } else {
        let (d, p) = commit_run(targets.drop_last(), present);
        let t = targets.last();
        if p.contains(t) {
            (d.push(t), p.remove(t))
        } else {
            (d, p)
        }
    }
}

proof fn lemma_commit_run_effect(targets: Seq<Seq<char>>, present: Set<Seq<char>>)
    ensures
        ({
            let (d, p) = commit_run(targets, present);
            &&& d.no_duplicates()
            &&& forall|x: Seq<char>| #[trigger] p.contains(x) <==> (present.contains(x) && !targets.contains(x))
            &&& forall|x: Seq<char>| #[trigger] d.contains(x) ==> present.contains(x) && targets.contains(x) && !p.contains(x)
        }),
    decreases targets.len(),
{
    if targets.len() > 0 {
        let pre = targets.drop_last();
        let t = targets.last();
        lemma_commit_run_effect(pre, present);
        let (d0, p0) = commit_run(pre, present);
        assert(targets == pre.push(t));
        assert forall|x: Seq<char>| #[trigger] targets.contains(x) <==> (pre.contains(x) || x == t) by {
            if targets.contains(x) {
                let k = choose|k: int| 0 <= k < targets.len() && targets[k] == x;
                if k < pre.len() {
                    assert(pre[k] == x);
                }
            }
            if pre.contains(x) {
                let k = choose|k: int| 0 <= k < pre.len() && pre[k] == x;
                assert(targets[k] == x);
            }
            if x == t {
                assert(targets[targets.len() - 1] == x);
            }
        }
        if p0.contains(t) {
            let d = d0.push(t);
            assert(!d0.contains(t));
            assert forall|x: Seq<char>| #[trigger] d.contains(x) <==> (d0.contains(x) || x == t) by {
                if d.contains(x) {
                    let k = choose|k: int| 0 <= k < d.len() && d[k] == x;
                    if k < d0.len() {
                        assert(d0[k] == x);
                    }
                }
                if d0.contains(x) {
                    let k = choose|k: int| 0 <= k < d0.len() && d0[k] == x;
                    assert(d[k] == x);
                }
                if x == t {
                    assert(d[d.len() - 1] == x);
                }
            }
            assert forall|a: int, b: int| 0 <= a < d.len() && 0 <= b < d.len() && a != b implies d[a] != d[b] by {
                if a < d0.len() && b < d0.len() {
                } else if a < d0.len() {
                    assert(d0.contains(d[a]));
                } else if b < d0.len() {
                    assert(d0.contains(d[b]));
                }
            }
        }
    }
}

proof fn lemma_commit_run_absent(targets: Seq<Seq<char>>, present: Set<Seq<char>>)
    requires
        forall|x: Seq<char>| #[trigger] targets.contains(x) ==> !present.contains(x),
    ensures
        commit_run(targets, present) == (Seq::<Seq<char>>::empty(), present),
    decreases targets.len(),
{
    if targets.len() > 0 {
        let pre = targets.drop_last();
        assert forall|x: Seq<char>| #[trigger] pre.contains(x) implies !present.contains(x) by {
            let k = choose|k: int| 0 <= k < pre.len() && pre[k] == x;
            assert(targets[k] == x);
            assert(targets.contains(x));
        }
        lemma_commit_run_absent(pre, present);
        assert(targets.contains(targets.last()));
    }
}

/// Committing is idempotent: a first commit hands each staged file that is
/// still on disk to the trash exactly once, and a second commit right after
/// finds nothing left to trash and changes nothing.
pub proof fn lemma_commit_twice(m: EngineModel, present: Set<Seq<char>>)
    ensures
        ({
            let t = m.commit_targets();
            let (d1, p1) = commit_run(t, present);
            let (d2, p2) = commit_run(t, p1);
            &&& d1.no_duplicates()
            &&& forall|x: Seq<char>| #[trigger] d1.contains(x) ==> present.contains(x)
            &&& d2.len() == 0
            &&& p2 == p1
        }),
{
    let t = m.commit_targets();
    lemma_commit_run_effect(t, present);
    let (d1, p1) = commit_run(t, present);
    lemma_commit_run_absent(t, p1);
}

/// Trashing file `i` and undoing it renames the file into the staging
/// directory and then straight back to its own path, and leaves the engine
/// as it was; keeping a file and undoing it asks for nothing on disk and
/// also leaves the engine as it was.
pub proof fn lemma_decision_then_undo(m: EngineModel, i: usize, o: StepOutcome, o2: StepOutcome)
    requires
        m.wf(),
        i < m.paths.len(),
    ensures
        !m.dry_run ==> ({
            let (m1, r1) = m.record(i, Decision::Trash, StepOutcome::Done);
            &&& m.decision_step(i as int, Decision::Trash) == Ok::<StepModel, EngineError>(
                StepModel::Rename(m.paths[i as int], m.staged_path(i as nat)),
            )
            &&& r1 == Ok::<(), EngineError>(())
            &&& m1.undo_step() == Ok::<StepModel, EngineError>(
                StepModel::Rename(m.staged_path(i as nat), m.paths[i as int]),
            )
            &&& m1.undo(StepOutcome::Done) == (m, Ok::<(), EngineError>(()))
        }),
        ({
            let (m1, r1) = m.record(i, Decision::Keep, o);
            &&& m.decision_step(i as int, Decision::Keep) == Ok::<StepModel, EngineError>(StepModel::Nothing)
            &&& r1 == Ok::<(), EngineError>(())
            &&& m1.undo_step() == Ok::<StepModel, EngineError>(StepModel::Nothing)
            &&& m1.undo(o2) == (m, Ok::<(), EngineError>(()))
        }),
{
    assert(m.decisions.push((i, Decision::Trash)).drop_last() == m.decisions);
    assert(m.decisions.push((i, Decision::Keep)).drop_last() == m.decisions);
}

/// In dry run no decision and no undo asks for anything on disk, every
/// decision on a valid index is recorded, and the counts reflect it.
pub proof fn lemma_dry_run(m: EngineModel, i: usize, d: Decision, o: StepOutcome)
    requires
        m.wf(),
        m.dry_run,
        i < m.paths.len(),
    ensures
        m.decision_step(i as int, d) == Ok::<StepModel, EngineError>(StepModel::Nothing),
        m.decisions.len() > 0 ==> m.undo_step() == Ok::<StepModel, EngineError>(StepModel::Nothing),
        m.record(i, d, o).1 == Ok::<(), EngineError>(()),
        m.record(i, d, o).0.decisions == m.decisions.push((i, d)),
        forall|e: Decision| #[trigger] count_of(m.record(i, d, o).0.decisions, e) == count_of(m.decisions, e) + if e == d {
            1nat
        } else {
            0nat
        },
{
    let ds = m.decisions.push((i, d));
    assert(ds.drop_last() == m.decisions);
}

} // verus!
