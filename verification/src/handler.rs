//! One connection: a single read, the fixed response, a flush, and the close.
//!
//! The handler performs no I/O. It says what to do next ([`Action`]), the caller does it on
//! the connection and reports how it went ([`Completion`]).

use vstd::prelude::*;
use vstd::string::*;

use crate::console::{labelled, Channel, Notice, NoticeView};
use crate::request::{as_text, captured, RequestBuffer, BUFFER_SIZE};
use crate::response::{response_bytes, response_octets, RESPONSE};

verus! {

/// An operation on the connection.
#[derive(Debug, Clone, Copy, PartialEq, Eq, Structural)]
pub enum Stage {
    Read,
    Write,
    Flush,
}

/// Where a handler stands.
#[derive(Debug, Clone, Copy, PartialEq, Eq, Structural)]
pub enum Phase {
    /// The given operation has been asked for and has not completed yet.
    Awaiting(Stage),
    /// The response was written and flushed; the connection is closed.
    Served,
    /// The given operation failed; the connection is closed.
    Aborted(Stage),
}

/// How the awaited operation ended.
#[derive(Debug, PartialEq, Eq)]
pub enum Completion {
    /// It succeeded. `received` holds what a read delivered; after a write or a flush it is
    /// not looked at.
    Done { received: Vec<u8> },
    /// It failed, with `detail` as the error's text.
    Failed { detail: String },
}

/// A [`Completion`] as contracts see it.
pub enum CompletionView {
    Done { received: Seq<u8> },
    Failed { detail: Seq<char> },
}

impl View for Completion {
    type V = CompletionView;

    open spec fn view(&self) -> CompletionView {
        match self {
            Completion::Done { received } => CompletionView::Done { received: received@ },
            Completion::Failed { detail } => CompletionView::Failed { detail: detail@ },
        }
    }
}

/// What the caller is to do on the connection.
#[derive(Debug, PartialEq, Eq)]
pub enum Action {
    /// Read once, at most `limit` bytes.
    Read { limit: usize },
    /// Write all of `payload`.
    Write { payload: Vec<u8> },
    /// Flush what was written.
    Flush,
    /// Close the connection; the handler is finished.
    Close,
}

/// An [`Action`] as contracts see it.
pub enum ActionView {
    Read { limit: nat },
    Write { payload: Seq<u8> },
    Flush,
    Close,
}

impl View for Action {
    type V = ActionView;

    open spec fn view(&self) -> ActionView {
        match self {
            Action::Read { limit } => ActionView::Read { limit: *limit as nat },
            Action::Write { payload } => ActionView::Write { payload: payload@ },
            Action::Flush => ActionView::Flush,
            Action::Close => ActionView::Close,
        }
    }
}

/// A line to print, if any, and then the action to perform.
#[derive(Debug, PartialEq, Eq)]
pub struct Step {
    pub notice: Option<Notice>,
    pub action: Action,
}

/// A [`Step`] as contracts see it.
pub struct StepView {
    pub notice: Option<NoticeView>,
    pub action: ActionView,
}

impl View for Step {
    type V = StepView;

    open spec fn view(&self) -> StepView {
        StepView {
            notice: match self.notice {
                Some(notice) => Some(notice@),
                None => None,
            },
            action: self.action@,
        }
    }
}

/// The first step of every handler: read once, up to the buffer's size.
pub open spec fn opening() -> StepView {
    StepView { notice: None, action: ActionView::Read { limit: BUFFER_SIZE as nat } }
}

/// The step after the read, where `text` is the buffer as text: report the request, then
/// write the response.
pub open spec fn answer(text: Seq<char>) -> StepView {
    StepView {
        notice: Some(labelled(Channel::Stdout, "Received request:\n"@, text)),
        action: ActionView::Write { payload: response_octets() },
    }
}

/// The step after the write.
pub open spec fn flushing() -> StepView {
    StepView { notice: None, action: ActionView::Flush }
}

/// The step after the flush: report the response and close.
pub open spec fn closing() -> StepView {
    StepView {
        notice: Some(labelled(Channel::Stdout, "Sent response:\n"@, RESPONSE@)),
        action: ActionView::Close,
    }
}

/// The step after a failure: report the error as it came and close.
pub open spec fn giving_up(detail: Seq<char>) -> StepView {
    StepView {
        notice: Some(NoticeView { channel: Channel::Stderr, text: detail }),
        action: ActionView::Close,
    }
}

/// The step of a handler that has already closed.
pub open spec fn idle() -> StepView {
    StepView { notice: None, action: ActionView::Close }
}

/// The transition: the phase and the step that follow `completion` in `phase`.
pub open spec fn next(phase: Phase, completion: CompletionView) -> (Phase, StepView) {
    match phase {
        Phase::Awaiting(stage) => match completion {
            CompletionView::Failed { detail } => (Phase::Aborted(stage), giving_up(detail)),
            CompletionView::Done { received } => match stage {
                Stage::Read => (
                    Phase::Awaiting(Stage::Write),
                    answer(as_text(captured(received))),
                ),
                Stage::Write => (Phase::Awaiting(Stage::Flush), flushing()),
                Stage::Flush => (Phase::Served, closing()),
            },
        },
        Phase::Served => (Phase::Served, idle()),
        Phase::Aborted(stage) => (Phase::Aborted(stage), idle()),
    }
}

/// Builds the step that follows the read, from the buffer's text.
pub fn answer_to(text: &str) -> (step: Step)
    ensures
        step@ == answer(text@),
{
    Step {
        notice: Some(Notice::labelled(Channel::Stdout, "Received request:\n", text)),
        action: Action::Write { payload: response_bytes() },
    }
}

/// The handler of one connection.
pub struct Handler {
    phase: Phase,
}

impl View for Handler {
    type V = Phase;

    closed spec fn view(&self) -> Phase {
        self.phase
    }
}

impl Handler {
    /// A handler for a connection that was just accepted, with its first step.
    pub fn start() -> (started: (Handler, Step))
        ensures
            started.0@ == Phase::Awaiting(Stage::Read),
            started.1@ == opening(),
    {
        (
            Handler { phase: Phase::Awaiting(Stage::Read) },
            Step { notice: None, action: Action::Read { limit: BUFFER_SIZE } },
        )
    }

    /// Where the handler stands.
    pub fn phase(&self) -> (phase: Phase)
        ensures
            phase == self@,
    {
        self.phase
    }

    /// Whether the connection is closed, so that nothing more is to be done.
    pub fn is_closed(&self) -> (closed: bool)
        ensures
            closed <==> !(self@ is Awaiting),
    {
        match self.phase {
            Phase::Awaiting(_) => false,
            _ => true,
        }
    }

    /// Takes the outcome of the awaited operation and says what comes next.
    pub fn step(&mut self, completion: Completion) -> (step: Step)
        ensures
            final(self)@ == next(old(self)@, completion@).0,
            step@ == next(old(self)@, completion@).1,
    {
        match self.phase {
            Phase::Awaiting(stage) => match completion {
                Completion::Failed { detail } => {
                    self.phase = Phase::Aborted(stage);
                    Step {
                        notice: Some(Notice { channel: Channel::Stderr, text: detail }),
                        action: Action::Close,
                    }
                },
                Completion::Done { received } => match stage {
                    Stage::Read => {
                        let mut buffer = RequestBuffer::new();
                        buffer.fill(received.as_slice());
                        let text = buffer.text();
                        self.phase = Phase::Awaiting(Stage::Write);
                        answer_to(text.as_str())
                    },
                    Stage::Write => {
                        self.phase = Phase::Awaiting(Stage::Flush);
                        Step { notice: None, action: Action::Flush }
                    },
                    Stage::Flush => {
                        self.phase = Phase::Served;
                        Step {
                            notice: Some(
                                Notice::labelled(Channel::Stdout, "Sent response:\n", RESPONSE),
                            ),
                            action: Action::Close,
                        }
                    },
                },
            },
            Phase::Served => Step { notice: None, action: Action::Close },
            Phase::Aborted(_) => Step { notice: None, action: Action::Close },
        }
    }
}

} // verus!
