//! The result of one upload attempt.

use vstd::prelude::*;

verus! {

/// How one upload attempt ended. A failure names the file and says what went
/// wrong, either while reading it or while sending it.
#[derive(Debug, Clone, PartialEq, Eq)]
pub enum Outcome {
    Success,
    Failure { path: String, error_message: String },
}

/// An `Outcome` as contracts see it, with text as sequences of characters.
pub enum OutcomeView {
    Success,
    Failure { path: Seq<char>, error_message: Seq<char> },
}

impl View for Outcome {
    type V = OutcomeView;

    open spec fn view(&self) -> OutcomeView {
        match *self {
            Outcome::Success => OutcomeView::Success,
            Outcome::Failure { path, error_message } => OutcomeView::Failure {
                path: path@,
                error_message: error_message@,
            },
        }
    }
}

impl Outcome {
    /// Builds the failure of the file at `path` with the given detail.
    pub fn failure(path: &str, error_message: &str) -> (outcome: Outcome)
        ensures
            outcome@ == (OutcomeView::Failure { path: path@, error_message: error_message@ }),
    {
        Outcome::Failure { path: path.to_owned(), error_message: error_message.to_owned() }
    }

    pub fn is_success(&self) -> (b: bool)
        ensures
            b == (self@ is Success),
    {
        match self {
            Outcome::Success => true,
            Outcome::Failure { .. } => false,
        }
    }

    pub fn is_failure(&self) -> (b: bool)
        ensures
            b == (self@ is Failure),
    {
        !self.is_success()
    }
}

} // verus!
