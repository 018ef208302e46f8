//! Counting finished attempts against the number of files found.
//!
//! The count only goes up, one at a time, and never past the total. How it is
//! shown on a terminal is the caller's business.

use vstd::prelude::*;

verus! {

/// A progress counter as contracts see it.
pub struct ProgressView {
    pub total: nat,
    pub completed: nat,
}

impl ProgressView {
    /// A counter at its start.
    pub open spec fn start(total: nat) -> ProgressView {
        ProgressView { total, completed: 0 }
    }

    /// Every attempt has been counted.
    pub open spec fn done(self) -> bool {
        self.completed == self.total
    }

    /// The counter after one more completion. A counter that is done stays
    /// as it is.
    pub open spec fn tick(self) -> ProgressView {
        if self.completed < self.total {
            ProgressView { completed: self.completed + 1, ..self }
        } else {
            self
        }
    }

    /// The counter after `n` completions.
    pub open spec fn ticks(self, n: nat) -> ProgressView
        decreases n,
    {
        if n == 0 {
            self
        } else {
            self.tick().ticks((n - 1) as nat)
        }
    }
}

/// How many of the attempts of a batch have finished.
#[derive(Debug)]
pub struct Progress {
    total: usize,
    completed: usize,
}

impl View for Progress {
    type V = ProgressView;

    closed spec fn view(&self) -> ProgressView {
        ProgressView { total: self.total as nat, completed: self.completed as nat }
    }
}

impl Progress {
    #[verifier::type_invariant]
    spec fn bounded(self) -> bool {
        self.completed <= self.total
    }

    /// A counter for `total` attempts, none of them finished.
    pub fn new(total: usize) -> (progress: Progress)
        ensures
            progress@ == ProgressView::start(total as nat),
    {
        Progress { total, completed: 0 }
    }

    pub fn total(&self) -> (n: usize)
        ensures
            n == self@.total,
    {
        self.total
    }

    pub fn completed(&self) -> (n: usize)
        ensures
            n == self@.completed,
            n <= self@.total,
    {
        proof {
            use_type_invariant(self);
        }
        self.completed
    }

    /// The attempts that have not finished yet.
    pub fn remaining(&self) -> (n: usize)
        ensures
            n == self@.total - self@.completed,
    {
        proof {
            use_type_invariant(self);
        }
        self.total - self.completed
    }

    pub fn is_done(&self) -> (done: bool)
        ensures
            done == self@.done(),
    {
        self.completed == self.total
    }

    /// Records one completion and says whether all attempts have now
    /// finished. The count never passes the total: on a counter that is done
    /// the call changes nothing.
    pub fn record_completion(&mut self) -> (done: bool)
        ensures
            final(self)@ == old(self)@.tick(),
            final(self)@.completed <= final(self)@.total,
            done == final(self)@.done(),
    {
        proof {
            use_type_invariant(&*self);
        }
        if self.completed < self.total {
            self.completed += 1;
        }
        self.completed == self.total
    }
}

/// A counter that has not passed its total does not pass it with `n` more
/// completions, and the count is what it was plus `n`, capped at the total.
pub proof fn lemma_ticks(p: ProgressView, n: nat)
    requires
        p.completed <= p.total,
    ensures
        p.ticks(n).total == p.total,
        p.ticks(n).completed == if p.completed + n <= p.total {
            p.completed + n
        } else {
            p.total
        },
    decreases n,
{
    if n > 0 {
        lemma_ticks(p.tick(), (n - 1) as nat);
    }
}

/// A counter for `total` attempts is done after `total` completions and not
/// before.
pub proof fn law_done_exactly_at_total(total: nat, n: nat)
    ensures
        ProgressView::start(total).ticks(n).done() <==> n >= total,
{
    lemma_ticks(ProgressView::start(total), n);
}

} // verus!
