//! The run over all the files found: who is handed which file, and what
//! happens when an attempt ends.
//!
//! Workers share one `Batch`. A worker claims a file, uploads it, and reports
//! the outcome; the batch counts it and, for a failure, hands back the line
//! that belongs in the failure log. Each file goes from `Discovered` to
//! `Attempted` to `Succeeded` or `Failed`, and never back.

use vstd::prelude::*;
use crate::discovery::Candidate;
use crate::failure_log::{entry_text, failure_entry};
use crate::outcome::{Outcome, OutcomeView};
use crate::progress::Progress;

verus! {

/// Where one file stands in the run.
#[derive(Debug, Clone, Copy, PartialEq, Eq, Structural)]
pub enum Stage {
    /// Found, and not handed to a worker yet.
    Discovered,
    /// Handed to a worker; the attempt is under way.
    Attempted,
    /// The attempt ended in success.
    Succeeded,
    /// The attempt ended in failure.
    Failed,
}

/// The stage is one of the two in which an attempt has ended.
pub open spec fn is_terminal(stage: Stage) -> bool {
    stage is Succeeded || stage is Failed
}

/// The stage is that of a failed attempt.
pub open spec fn is_failed(stage: Stage) -> bool {
    stage is Failed
}

/// How many of `stages` satisfy `wanted`.
pub open spec fn count_of(stages: Seq<Stage>, wanted: spec_fn(Stage) -> bool) -> nat
    decreases stages.len(),
{
    if stages.len() == 0 {
        0
    } else {
        count_of(stages.drop_last(), wanted) + if wanted(stages.last()) {
            1nat
        } else {
            0nat
        }
    }
}

/// One thing that can happen to a batch.
pub enum Step {
    /// A worker asks for a file.
    Claim,
    /// A worker reports the end of the attempt on the file at `index`.
    Complete { index: int, failed: bool },
}

/// A batch as contracts see it.
pub struct BatchView {
    /// The stage of each file, in the order of discovery.
    pub stages: Seq<Stage>,
    /// How many files have been handed out; they are handed out in order.
    pub handed_out: nat,
    /// How many attempts have been counted as finished.
    pub completed: nat,
    /// How many failure log entries have been given out.
    pub logged: nat,
}

impl BatchView {
    /// A batch of `n` files before anything has happened.
    pub open spec fn init(n: nat) -> BatchView {
        BatchView {
            stages: Seq::new(n, |i: int| Stage::Discovered),
            handed_out: 0,
            completed: 0,
            logged: 0,
        }
    }

    pub open spec fn total(self) -> nat {
        self.stages.len()
    }

    /// The counts agree with the stages: the files handed out are the first
    /// `handed_out` ones and no others, every ended attempt has been counted
    /// once, and every failed one has got one log entry.
    pub open spec fn wf(self) -> bool {
        &&& self.handed_out <= self.total()
        &&& forall|i: int|
            0 <= i < self.total() ==> ((#[trigger] self.stages[i]) is Discovered <==> i
                >= self.handed_out)
        &&& self.completed == count_of(self.stages, |s: Stage| is_terminal(s))
        &&& self.logged == count_of(self.stages, |s: Stage| is_failed(s))
    }

    /// Every file has been attempted and every attempt has ended.
    pub open spec fn finished(self) -> bool {
        self.completed == self.total()
    }

    /// The file that the next claim hands out, if one is left.
    pub open spec fn next_claim(self) -> Option<int> {
        if self.handed_out < self.total() {
            Some(self.handed_out as int)
        } else {
            None
        }
    }

    /// An attempt on the file at `index` is under way.
    pub open spec fn in_flight(self, index: int) -> bool {
        0 <= index < self.total() && self.stages[index] is Attempted
    }

    /// The batch after a claim.
    pub open spec fn claim(self) -> BatchView {
        if self.handed_out < self.total() {
            BatchView {
                stages: self.stages.update(self.handed_out as int, Stage::Attempted),
                handed_out: self.handed_out + 1,
                ..self
            }
        } else {
            self
        }
    }

    /// The batch after the end of the attempt on the file at `index`. A
    /// report on a file that is not in flight changes nothing.
    pub open spec fn complete(self, index: int, failed: bool) -> BatchView {
        if self.in_flight(index) {
            BatchView {
                stages: self.stages.update(
                    index,
                    if failed {
                        Stage::Failed
                    } else {
                        Stage::Succeeded
                    },
                ),
                completed: self.completed + 1,
                logged: if failed {
                    self.logged + 1
                } else {
                    self.logged
                },
                ..self
            }
        } else {
            self
        }
    }

    /// The batch after `step`.
    pub open spec fn apply(self, step: Step) -> BatchView {
        match step {
            Step::Claim => self.claim(),
            Step::Complete { index, failed } => self.complete(index, failed),
        }
    }

    /// The batch after the steps of `steps`, taken in order.
    pub open spec fn run(self, steps: Seq<Step>) -> BatchView
        decreases steps.len(),
    {
        if steps.len() == 0 {
            self
        } else {
            self.apply(steps[0]).run(steps.drop_first())
        }
    }
}

/// Why a report on an attempt was turned down.
#[derive(Debug, Clone, Copy, PartialEq, Eq, Structural)]
pub enum BatchError {
    /// The batch has no file at that index.
    UnknownCandidate,
    /// No attempt on that file is under way: it was never handed out, or its
    /// attempt has already been reported.
    NotInFlight,
}

/// What the batch hands back when an attempt has been counted.
#[derive(Debug, PartialEq, Eq)]
pub struct Completion {
    /// The line to append to the failure log, for a failed attempt.
    pub entry: Option<String>,
    /// Whether this was the last attempt of the batch.
    pub finished: bool,
}

/// The state of one run over the files found.
#[derive(Debug)]
pub struct Batch {
    candidates: Vec<Candidate>,
    stages: Vec<Stage>,
    handed_out: usize,
    progress: Progress,
    logged: usize,
}

impl View for Batch {
    type V = BatchView;

    closed spec fn view(&self) -> BatchView {
        BatchView {
            stages: self.stages@,
            handed_out: self.handed_out as nat,
            completed: self.progress@.completed,
            logged: self.logged as nat,
        }
    }
}

impl Batch {
    /// The files of the batch, in the order of discovery.
    pub closed spec fn candidates(&self) -> Seq<Candidate> {
        self.candidates@
    }

    /// The batch is well formed: it has one stage per file, its counter runs
    /// to the number of files, and its counts agree with its stages.
    pub closed spec fn inv(&self) -> bool {
        &&& self.candidates.len() == self.stages.len()
        &&& self.progress@.total == self.stages.len()
        &&& self@.wf()
    }

    /// What `inv` says of the view.
    pub proof fn lemma_inv(&self)
        requires
            self.inv(),
        ensures
            self@.wf(),
            self@.total() == self.candidates().len(),
    {
    }

    /// A batch of the given files, none of them handed out. A batch of no
    /// files is finished from the start.
    pub fn new(candidates: Vec<Candidate>) -> (batch: Batch)
        ensures
            batch.inv(),
            batch@ == BatchView::init(candidates.len() as nat),
            batch.candidates() == candidates@,
    {
        let n: usize = candidates.len();
        let mut stages: Vec<Stage> = Vec::new();
        let mut i: usize = 0;
        while i < n
            invariant
                i <= n,
                stages.len() == i,
                forall|k: int| 0 <= k < i ==> (#[trigger] stages[k]) is Discovered,
            decreases n - i,
        {
            stages.push(Stage::Discovered);
            i += 1;
        }
        let batch = Batch { candidates, stages, handed_out: 0, progress: Progress::new(n), logged: 0 };
        proof {
            assert(batch@.stages =~= BatchView::init(n as nat).stages);
            lemma_count_bounds(batch@.stages, |s: Stage| is_terminal(s));
            lemma_count_bounds(batch@.stages, |s: Stage| is_failed(s));
        }
        batch
    }

    /// The number of files in the batch.
    pub fn total(&self) -> (n: usize)
        ensures
            n == self@.total(),
    {
        self.stages.len()
    }

    /// The number of attempts that have ended.
    pub fn completed(&self) -> (n: usize)
        ensures
            n == self@.completed,
    {
        self.progress.completed()
    }

    /// The number of attempts that have failed, which is the number of
    /// failure log entries given out.
    pub fn failures(&self) -> (n: usize)
        ensures
            n == self@.logged,
    {
        self.logged
    }

    /// Whether every file has been attempted and every attempt has ended.
    pub fn is_finished(&self) -> (done: bool)
        ensures
            done == self@.finished(),
    {
        self.progress.completed() == self.stages.len()
    }

    /// The stage of the file at `index`, if there is one.
    pub fn stage(&self, index: usize) -> (stage: Option<Stage>)
        ensures
            stage == if index < self@.total() {
                Some(self@.stages[index as int])
            } else {
                None
            },
    {
        if index < self.stages.len() {
            Some(self.stages[index])
        } else {
            None
        }
    }

    /// The file at `index`, if there is one.
    pub fn candidate(&self, index: usize) -> (found: Option<&Candidate>)
        ensures
            found == if index < self.candidates().len() {
                Some(&self.candidates()[index as int])
            } else {
                None
            },
    {
        if index < self.candidates.len() {
            Some(&self.candidates[index])
        } else {
            None
        }
    }

    /// Hands out the next file that no worker has been given yet, and marks
    /// it as attempted. Files go out in the order of discovery, each once;
    /// `None` means that none is left to hand out.
    pub fn claim_next(&mut self) -> (claimed: Option<usize>)
        requires
            old(self).inv(),
        ensures
            final(self).inv(),
            final(self).candidates() == old(self).candidates(),
            final(self)@ == old(self)@.claim(),
            match claimed {
                Some(index) => old(self)@.next_claim() == Some(index as int),
                None => old(self)@.next_claim() is None,
            },
    {
        if self.handed_out < self.stages.len() {
            let index: usize = self.handed_out;
            proof {
                lemma_count_update(self.stages@, index as int, Stage::Attempted, |s: Stage| is_terminal(s));
                lemma_count_update(self.stages@, index as int, Stage::Attempted, |s: Stage| is_failed(s));
            }
            self.stages.set(index, Stage::Attempted);
            self.handed_out = index + 1;
            Some(index)
        } else {
            None
        }
    }

    /// Takes in the outcome of the attempt on the file at `index`: counts it,
    /// moves the file to its last stage, and for a failure hands back the
    /// line for the failure log. A report that names no file of the batch, or
    /// a file with no attempt under way, is turned down and changes nothing,
    /// so that no attempt is counted twice.
    pub fn complete(&mut self, index: usize, outcome: &Outcome) -> (result: Result<
        Completion,
        BatchError,
    >)
        requires
            old(self).inv(),
        ensures
            final(self).inv(),
            final(self).candidates() == old(self).candidates(),
            final(self)@ == old(self)@.complete(index as int, outcome@ is Failure),
            match result {
                Ok(done) => {
                    &&& old(self)@.in_flight(index as int)
                    &&& done.finished == final(self)@.finished()
                    &&& match outcome@ {
                        OutcomeView::Failure { path, error_message } => {
                            &&& done.entry matches Some(line)
                            &&& line@ == entry_text(path, error_message)
                        },
                        OutcomeView::Success => done.entry is None,
                    }
                },
                Err(BatchError::UnknownCandidate) => index >= old(self)@.total(),
                Err(BatchError::NotInFlight) => {
                    &&& index < old(self)@.total()
                    &&& !(old(self)@.stages[index as int] is Attempted)
                },
            },
    {
        if index >= self.stages.len() {
            return Err(BatchError::UnknownCandidate);
        }
        match self.stages[index] {
            Stage::Attempted => {},
            _ => {
                return Err(BatchError::NotInFlight);
            },
        }
        let ghost before = self.stages@;
        let ghost terminal = |s: Stage| is_terminal(s);
        let ghost failed = |s: Stage| is_failed(s);
        match outcome {
            Outcome::Success => {
                proof {
                    lemma_count_update(before, index as int, Stage::Succeeded, terminal);
                    lemma_count_update(before, index as int, Stage::Succeeded, failed);
                    lemma_count_bounds(before.update(index as int, Stage::Succeeded), terminal);
                }
                self.stages.set(index, Stage::Succeeded);
                let finished = self.progress.record_completion();
                Ok(Completion { entry: None, finished })
            },
            Outcome::Failure { path, error_message } => {
                proof {
                    lemma_count_update(before, index as int, Stage::Failed, terminal);
                    lemma_count_update(before, index as int, Stage::Failed, failed);
                    lemma_count_bounds(before.update(index as int, Stage::Failed), terminal);
                    lemma_count_bounds(before.update(index as int, Stage::Failed), failed);
                }
                self.stages.set(index, Stage::Failed);
                let finished = self.progress.record_completion();
                self.logged = self.logged + 1;
                let line = failure_entry(path.as_str(), error_message.as_str());
                Ok(Completion { entry: Some(line), finished })
            },
        }
    }
}

/// Replacing one stage changes a count by what the old stage took from it and
/// the new one adds to it.
pub proof fn lemma_count_update(
    stages: Seq<Stage>,
    index: int,
    stage: Stage,
    wanted: spec_fn(Stage) -> bool,
)
    requires
        0 <= index < stages.len(),
    ensures
        count_of(stages.update(index, stage), wanted) + (if wanted(stages[index]) {
            1nat
        } else {
            0nat
        }) == count_of(stages, wanted) + (if wanted(stage) {
            1nat
        } else {
            0nat
        }),
    decreases stages.len(),
{
    let updated = stages.update(index, stage);
    if index == stages.len() - 1 {
        assert(updated.drop_last() =~= stages.drop_last());
    } else {
        assert(updated.drop_last() =~= stages.drop_last().update(index, stage));
        lemma_count_update(stages.drop_last(), index, stage, wanted);
    }
}

/// A count is at most the number of stages; where it reaches that number,
/// every stage is counted, and where none is counted it is zero.
pub proof fn lemma_count_bounds(stages: Seq<Stage>, wanted: spec_fn(Stage) -> bool)
    ensures
        count_of(stages, wanted) <= stages.len(),
        count_of(stages, wanted) == stages.len() <==> forall|i: int|
            0 <= i < stages.len() ==> wanted(#[trigger] stages[i]),
        count_of(stages, wanted) == 0 <==> forall|i: int|
            0 <= i < stages.len() ==> !wanted(#[trigger] stages[i]),
    decreases stages.len(),
{
    if stages.len() > 0 {
        let front = stages.drop_last();
        lemma_count_bounds(front, wanted);
        assert forall|i: int| 0 <= i < front.len() implies front[i] == stages[i] by {}
        if count_of(stages, wanted) == stages.len() {
            assert forall|i: int| 0 <= i < stages.len() implies wanted(#[trigger] stages[i]) by {
                if i < front.len() {
                    assert(front[i] == stages[i]);
                }
            }
        }
        if forall|i: int| 0 <= i < stages.len() ==> wanted(#[trigger] stages[i]) {
            assert forall|i: int| 0 <= i < front.len() implies wanted(#[trigger] front[i]) by {
                assert(front[i] == stages[i]);
            }
        }
        if count_of(stages, wanted) == 0 {
            assert forall|i: int| 0 <= i < stages.len() implies !wanted(#[trigger] stages[i]) by {
                if i < front.len() {
                    assert(front[i] == stages[i]);
                }
            }
        }
        if forall|i: int| 0 <= i < stages.len() ==> !wanted(#[trigger] stages[i]) {
            assert forall|i: int| 0 <= i < front.len() implies !wanted(#[trigger] front[i]) by {
                assert(front[i] == stages[i]);
            }
        }
    }
}

} // verus!
