//! What holds of a batch whatever the workers do, and in whatever order.
//!
//! A schedule is a sequence of steps: claims and reports, interleaved as the
//! workers happen to make them, reports that fit and reports that do not. The
//! laws below are stated for every schedule.

use vstd::prelude::*;
use crate::batch::{
    count_of, is_failed, is_terminal, lemma_count_bounds, lemma_count_update, BatchView, Stage,
    Step,
};

verus! {

/// The step is a report that `batch` takes in: it names a file whose attempt
/// is under way.
pub open spec fn taken_in(batch: BatchView, step: Step) -> bool {
    match step {
        Step::Claim => false,
        Step::Complete { index, failed } => batch.in_flight(index),
    }
}

/// The files that are handed out, in order, while `steps` are applied to
/// `batch`.
pub open spec fn handed(batch: BatchView, steps: Seq<Step>) -> Seq<int>
    decreases steps.len(),
{
    if steps.len() == 0 {
        Seq::empty()
    } else {
        let later = handed(batch.apply(steps[0]), steps.drop_first());
        if steps[0] is Claim && batch.next_claim() is Some {
            seq![batch.next_claim()->0] + later
        } else {
            later
        }
    }
}

/// The number of outcomes that are taken in while `steps` are applied to
/// `batch`.
pub open spec fn outcomes(batch: BatchView, steps: Seq<Step>) -> nat
    decreases steps.len(),
{
    if steps.len() == 0 {
        0
    } else {
        outcomes(batch.apply(steps[0]), steps.drop_first()) + if taken_in(batch, steps[0]) {
            1nat
        } else {
            0nat
        }
    }
}

/// The number of outcomes of the file at `index` that are taken in while
/// `steps` are applied to `batch`.
pub open spec fn outcomes_of(batch: BatchView, steps: Seq<Step>, index: int) -> nat
    decreases steps.len(),
{
    if steps.len() == 0 {
        0
    } else {
        outcomes_of(batch.apply(steps[0]), steps.drop_first(), index) + if taken_in(
            batch,
            steps[0],
        ) && steps[0]->index == index {
            1nat
        } else {
            0nat
        }
    }
}

/// The number of failures that are taken in while `steps` are applied to
/// `batch`.
pub open spec fn failures(batch: BatchView, steps: Seq<Step>) -> nat
    decreases steps.len(),
{
    if steps.len() == 0 {
        0
    } else {
        failures(batch.apply(steps[0]), steps.drop_first()) + if taken_in(batch, steps[0])
            && steps[0]->failed {
            1nat
        } else {
            0nat
        }
    }
}

/// A step keeps a batch well formed and leaves the number of files alone. No
/// count goes down and no file goes back to an earlier stage: one that has
/// left `Discovered` does not return to it, and one whose attempt has ended
/// stays as it ended.
pub proof fn lemma_step(batch: BatchView, step: Step)
    requires
        batch.wf(),
    ensures
        batch.apply(step).wf(),
        batch.apply(step).total() == batch.total(),
        batch.apply(step).handed_out >= batch.handed_out,
        batch.apply(step).completed >= batch.completed,
        batch.apply(step).logged >= batch.logged,
        forall|i: int|
            0 <= i < batch.total() && is_terminal(#[trigger] batch.stages[i]) ==> batch.apply(
                step,
            ).stages[i] == batch.stages[i],
{
    let terminal = |s: Stage| is_terminal(s);
    let failed = |s: Stage| is_failed(s);
    match step {
        Step::Claim => {
            if batch.handed_out < batch.total() {
                let index = batch.handed_out as int;
                assert(batch.stages[index] is Discovered);
                lemma_count_update(batch.stages, index, Stage::Attempted, terminal);
                lemma_count_update(batch.stages, index, Stage::Attempted, failed);
            }
        },
        Step::Complete { index, failed: has_failed } => {
            if batch.in_flight(index) {
                let stage = if has_failed {
                    Stage::Failed
                } else {
                    Stage::Succeeded
                };
                lemma_count_update(batch.stages, index, stage, terminal);
                lemma_count_update(batch.stages, index, stage, failed);
            }
        },
    }
}

/// What a schedule does to a well-formed batch, count by count.
pub proof fn lemma_schedule(batch: BatchView, steps: Seq<Step>)
    requires
        batch.wf(),
    ensures
        batch.run(steps).wf(),
        batch.run(steps).total() == batch.total(),
        batch.run(steps).handed_out >= batch.handed_out,
        batch.run(steps).completed == batch.completed + outcomes(batch, steps),
        batch.run(steps).logged == batch.logged + failures(batch, steps),
        handed(batch, steps) =~= Seq::new(
            (batch.run(steps).handed_out - batch.handed_out) as nat,
            |k: int| batch.handed_out + k,
        ),
    decreases steps.len(),
{
    if steps.len() > 0 {
        let after = batch.apply(steps[0]);
        lemma_step(batch, steps[0]);
        lemma_schedule(after, steps.drop_first());
    }
}

/// What a schedule does to one file of a well-formed batch: its attempt ends
/// at the end of the schedule exactly if it had ended before or one outcome
/// of it was taken in, and never both.
pub proof fn lemma_schedule_of_file(batch: BatchView, steps: Seq<Step>, index: int)
    requires
        batch.wf(),
        0 <= index < batch.total(),
    ensures
        outcomes_of(batch, steps, index) + (if is_terminal(batch.stages[index]) {
            1nat
        } else {
            0nat
        }) == (if is_terminal(batch.run(steps).stages[index]) {
            1nat
        } else {
            0nat
        }),
    decreases steps.len(),
{
    if steps.len() > 0 {
        let after = batch.apply(steps[0]);
        lemma_step(batch, steps[0]);
        lemma_schedule_of_file(after, steps.drop_first(), index);
    }
}

/// A batch of `n` files is well formed before anything has happened.
pub proof fn lemma_init(n: nat)
    ensures
        BatchView::init(n).wf(),
        BatchView::init(n).total() == n,
{
    let fresh = BatchView::init(n);
    lemma_count_bounds(fresh.stages, |s: Stage| is_terminal(s));
    lemma_count_bounds(fresh.stages, |s: Stage| is_failed(s));
}

/// Under every schedule the batch stays well formed, and its counts are
/// those of the schedule: it has counted as many attempts as outcomes were
/// taken in, never more than there are files, and has given out as many log
/// entries as failures were taken in.
pub proof fn law_counts_follow_outcomes(n: nat, steps: Seq<Step>)
    ensures
        ({
            let end = BatchView::init(n).run(steps);
            &&& end.wf()
            &&& end.total() == n
            &&& end.completed == outcomes(BatchView::init(n), steps)
            &&& end.completed <= n
            &&& end.logged == failures(BatchView::init(n), steps)
            &&& end.logged == count_of(end.stages, |s: Stage| is_failed(s))
            &&& end.logged <= end.completed
        }),
{
    let start = BatchView::init(n);
    lemma_init(n);
    lemma_schedule(start, steps);
    let end = start.run(steps);
    lemma_count_bounds(end.stages, |s: Stage| is_terminal(s));
    lemma_failed_among_ended(end.stages);
}

/// No more attempts have failed than have ended.
proof fn lemma_failed_among_ended(stages: Seq<Stage>)
    ensures
        count_of(stages, |s: Stage| is_failed(s)) <= count_of(stages, |s: Stage| is_terminal(s)),
    decreases stages.len(),
{
    if stages.len() > 0 {
        lemma_failed_among_ended(stages.drop_last());
    }
}

/// Once a run is finished, exactly `n` outcomes have been taken in: one for
/// each file, and each file's attempt has ended.
pub proof fn law_finished_run(n: nat, steps: Seq<Step>)
    requires
        BatchView::init(n).run(steps).finished(),
    ensures
        outcomes(BatchView::init(n), steps) == n,
        BatchView::init(n).run(steps).completed == n,
        BatchView::init(n).run(steps).handed_out == n,
        forall|i: int|
            0 <= i < n ==> is_terminal(#[trigger] BatchView::init(n).run(steps).stages[i]),
        forall|i: int| 0 <= i < n ==> #[trigger] outcomes_of(BatchView::init(n), steps, i) == 1,
{
    let start = BatchView::init(n);
    let end = start.run(steps);
    lemma_init(n);
    lemma_schedule(start, steps);
    lemma_count_bounds(end.stages, |s: Stage| is_terminal(s));
    assert forall|i: int| 0 <= i < n implies #[trigger] outcomes_of(start, steps, i) == 1 by {
        assert(is_terminal(end.stages[i]));
        lemma_schedule_of_file(start, steps, i);
    }
    if end.handed_out < n {
        assert(end.stages[end.handed_out as int] is Discovered);
    }
}

/// Under every schedule each file is handed out at most once: the files
/// handed out are the first ones in the order of discovery, one after the
/// other, with none left out and none repeated.
pub proof fn law_handed_out_once(n: nat, steps: Seq<Step>)
    ensures
        handed(BatchView::init(n), steps) =~= Seq::new(
            BatchView::init(n).run(steps).handed_out,
            |k: int| k,
        ),
        handed(BatchView::init(n), steps).len() <= n,
        handed(BatchView::init(n), steps).no_duplicates(),
{
    lemma_init(n);
    lemma_schedule(BatchView::init(n), steps);
}

/// Under every schedule at most one outcome is taken in for each file, and
/// one has been taken in exactly for the files whose attempt has ended.
pub proof fn law_one_outcome_per_file(n: nat, steps: Seq<Step>, index: int)
    requires
        0 <= index < n,
    ensures
        outcomes_of(BatchView::init(n), steps, index) <= 1,
        outcomes_of(BatchView::init(n), steps, index) == 1 <==> is_terminal(
            BatchView::init(n).run(steps).stages[index],
        ),
{
    lemma_init(n);
    lemma_schedule_of_file(BatchView::init(n), steps, index);
}

/// A batch of no files is finished before anything has happened, and no
/// schedule makes it hand out a file, take in an outcome or give out a log
/// entry.
pub proof fn law_empty_batch(steps: Seq<Step>)
    ensures
        BatchView::init(0).finished(),
        BatchView::init(0).run(steps) == BatchView::init(0),
        handed(BatchView::init(0), steps).len() == 0,
        outcomes(BatchView::init(0), steps) == 0,
        failures(BatchView::init(0), steps) == 0,
{
    let start = BatchView::init(0);
    lemma_init(0);
    lemma_schedule(start, steps);
    let end = start.run(steps);
    lemma_count_bounds(end.stages, |s: Stage| is_terminal(s));
    lemma_count_bounds(end.stages, |s: Stage| is_failed(s));
    assert(end.stages =~= start.stages);
}

} // verus!
