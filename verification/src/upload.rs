//! One upload attempt, as a state machine.
//!
//! An attempt reads the file, then posts its bytes, then ends. The caller
//! does the reading and the posting and reports how each went; what to do
//! next is decided here. A file that cannot be read is never posted, and
//! nothing is tried twice.

use vstd::prelude::*;
use crate::outcome::{Outcome, OutcomeView};

verus! {

/// Where an attempt stands.
#[derive(Debug, Clone, Copy, PartialEq, Eq, Structural)]
pub enum Phase {
    /// The file is being read.
    Reading,
    /// The request is on its way.
    Sending,
    /// The attempt has ended with an outcome.
    Done,
}

/// What the caller reports back.
#[derive(Debug, Clone, PartialEq, Eq)]
pub enum Event {
    /// The file was read in full; these are its bytes.
    FileRead(Vec<u8>),
    /// The file could not be opened or read.
    ReadFailed(String),
    /// The transport delivered a response, with this status code.
    Responded { status: u16 },
    /// The request did not complete: refused, timed out, unresolved.
    TransportFailed(String),
}

/// What the caller is asked to do.
#[derive(Debug, Clone, PartialEq, Eq)]
pub enum Action {
    /// Read the whole file at `path`.
    ReadFile { path: String },
    /// Send one POST request to `url` with `body` as its body.
    Post { url: String, body: Vec<u8> },
    /// The attempt is over.
    Finish(Outcome),
}

/// An `Event` as contracts see it.
pub enum EventView {
    FileRead(Seq<u8>),
    ReadFailed(Seq<char>),
    Responded { status: u16 },
    TransportFailed(Seq<char>),
}

/// An `Action` as contracts see it.
pub enum ActionView {
    ReadFile { path: Seq<char> },
    Post { url: Seq<char>, body: Seq<u8> },
    Finish(OutcomeView),
}

impl View for Event {
    type V = EventView;

    open spec fn view(&self) -> EventView {
        match *self {
            Event::FileRead(bytes) => EventView::FileRead(bytes@),
            Event::ReadFailed(error) => EventView::ReadFailed(error@),
            Event::Responded { status } => EventView::Responded { status },
            Event::TransportFailed(error) => EventView::TransportFailed(error@),
        }
    }
}

impl View for Action {
    type V = ActionView;

    open spec fn view(&self) -> ActionView {
        match *self {
            Action::ReadFile { path } => ActionView::ReadFile { path: path@ },
            Action::Post { url, body } => ActionView::Post { url: url@, body: body@ },
            Action::Finish(outcome) => ActionView::Finish(outcome@),
        }
    }
}

/// The view of an action that may be absent.
pub open spec fn action_view(action: Option<Action>) -> Option<ActionView> {
    match action {
        Some(a) => Some(a@),
        None => None,
    }
}

/// An attempt as contracts see it.
pub struct UploadView {
    pub path: Seq<char>,
    pub destination: Seq<char>,
    pub phase: Phase,
}

impl UploadView {
    /// A fresh attempt: the file is about to be read.
    pub open spec fn start(path: Seq<char>, destination: Seq<char>) -> UploadView {
        UploadView { path, destination, phase: Phase::Reading }
    }

    /// The same attempt in another phase.
    pub open spec fn at(self, phase: Phase) -> UploadView {
        UploadView { phase, ..self }
    }

    /// The failure of this attempt's file with the given detail.
    pub open spec fn failed_with(self, error: Seq<char>) -> ActionView {
        ActionView::Finish(OutcomeView::Failure { path: self.path, error_message: error })
    }

    /// The transition: the state after `event`, and what the caller is asked
    /// to do. An event that does not fit the phase changes nothing and asks
    /// for nothing.
    ///
    /// A response counts as success whatever its status code: only the
    /// transport's own errors are failures.
    pub open spec fn next(self, event: EventView) -> (UploadView, Option<ActionView>) {
        match self.phase {
            Phase::Reading => match event {
                EventView::FileRead(bytes) => (
                    self.at(Phase::Sending),
                    Some(ActionView::Post { url: self.destination, body: bytes }),
                ),
                EventView::ReadFailed(error) => (self.at(Phase::Done), Some(self.failed_with(error))),
                _ => (self, None),
            },
            Phase::Sending => match event {
                EventView::Responded { status } => (
                    self.at(Phase::Done),
                    Some(ActionView::Finish(OutcomeView::Success)),
                ),
                EventView::TransportFailed(error) => (
                    self.at(Phase::Done),
                    Some(self.failed_with(error)),
                ),
                _ => (self, None),
            },
            Phase::Done => (self, None),
        }
    }
}

/// The actions that an attempt in state `state` asks for, in order, while the
/// events of `events` arrive one after the other.
pub open spec fn actions_asked(state: UploadView, events: Seq<EventView>) -> Seq<ActionView>
    decreases events.len(),
{
    if events.len() == 0 {
        Seq::empty()
    } else {
        let step = state.next(events[0]);
        let later = actions_asked(step.0, events.drop_first());
        match step.1 {
            Some(action) => seq![action] + later,
            None => later,
        }
    }
}

/// One upload attempt of one file to one destination.
pub struct Upload {
    path: String,
    destination: String,
    phase: Phase,
}

impl View for Upload {
    type V = UploadView;

    closed spec fn view(&self) -> UploadView {
        UploadView { path: self.path@, destination: self.destination@, phase: self.phase }
    }
}

impl Upload {
    /// Opens an attempt for the file at `path`. The action that comes with it
    /// asks for the file to be read.
    pub fn new(path: &str, destination: &str) -> (opened: (Upload, Action))
        ensures
            opened.0@ == UploadView::start(path@, destination@),
            opened.1@ == (ActionView::ReadFile { path: path@ }),
    {
        let upload = Upload {
            path: path.to_owned(),
            destination: destination.to_owned(),
            phase: Phase::Reading,
        };
        (upload, Action::ReadFile { path: path.to_owned() })
    }

    pub fn phase(&self) -> (phase: Phase)
        ensures
            phase == self@.phase,
    {
        self.phase
    }

    /// Takes in what the caller reports and says what to do next. `None`
    /// means that the event did not fit the phase; the attempt is then
    /// unchanged.
    pub fn step(&mut self, event: Event) -> (action: Option<Action>)
        ensures
            final(self)@ == old(self)@.next(event@).0,
            action_view(action) == old(self)@.next(event@).1,
    {
        match self.phase {
            Phase::Reading => match event {
                Event::FileRead(bytes) => {
                    self.phase = Phase::Sending;
                    Some(Action::Post { url: self.destination.clone(), body: bytes })
                },
                Event::ReadFailed(error) => {
                    self.phase = Phase::Done;
                    Some(
                        Action::Finish(
                            Outcome::Failure { path: self.path.clone(), error_message: error },
                        ),
                    )
                },
                _ => None,
            },
            Phase::Sending => match event {
                Event::Responded { status } => {
                    self.phase = Phase::Done;
                    Some(Action::Finish(Outcome::Success))
                },
                Event::TransportFailed(error) => {
                    self.phase = Phase::Done;
                    Some(
                        Action::Finish(
                            Outcome::Failure { path: self.path.clone(), error_message: error },
                        ),
                    )
                },
                _ => None,
            },
            Phase::Done => None,
        }
    }
}

/// An attempt that is over asks for nothing more.
proof fn lemma_done_is_silent(state: UploadView, events: Seq<EventView>)
    requires
        state.phase == Phase::Done,
    ensures
        actions_asked(state, events).len() == 0,
    decreases events.len(),
{
    if events.len() > 0 {
        lemma_done_is_silent(state, events.drop_first());
    }
}

/// An attempt whose request is on its way asks for nothing but its end.
proof fn lemma_sending_only_finishes(state: UploadView, events: Seq<EventView>)
    requires
        state.phase == Phase::Sending,
    ensures
        actions_asked(state, events).len() <= 1,
        actions_asked(state, events).len() == 1 ==> actions_asked(state, events)[0] is Finish,
    decreases events.len(),
{
    if events.len() > 0 {
        let step = state.next(events[0]);
        if step.0.phase == Phase::Sending {
            lemma_sending_only_finishes(step.0, events.drop_first());
        } else {
            lemma_done_is_silent(step.0, events.drop_first());
        }
    }
}

/// Whatever the caller reports, and in whatever order, one attempt asks for
/// at most one request and ends at most once. What it asks for is one of:
/// nothing yet; one request; one request and then the end; or the end alone,
/// which is then a failure, so that a file that could not be read is never
/// sent.
pub proof fn law_single_attempt(
    path: Seq<char>,
    destination: Seq<char>,
    events: Seq<EventView>,
)
    ensures
        ({
            let asked = actions_asked(UploadView::start(path, destination), events);
            ||| asked.len() == 0
            ||| asked.len() == 1 && asked[0] is Post
            ||| asked.len() == 1 && asked[0] == ActionView::Finish(
                OutcomeView::Failure { path, error_message: asked[0]->Finish_0->error_message },
            )
            ||| asked.len() == 2 && asked[0] is Post && asked[1] is Finish
        }),
    decreases events.len(),
{
    let state = UploadView::start(path, destination);
    if events.len() > 0 {
        let step = state.next(events[0]);
        match step.0.phase {
            Phase::Reading => {
                law_single_attempt(path, destination, events.drop_first());
            },
            Phase::Sending => {
                lemma_sending_only_finishes(step.0, events.drop_first());
            },
            Phase::Done => {
                lemma_done_is_silent(step.0, events.drop_first());
            },
        }
    }
}

} // verus!
