//! The listener: bind once, then accept for ever.
//!
//! Like the handler it performs no I/O: it says what to do next ([`ListenerAction`]) and is
//! told how that went ([`Attempt`]).

use vstd::prelude::*;
use vstd::string::*;

use crate::console::{labelled, Channel, Notice, NoticeView};

verus! {

/// The address to listen on: every interface.
pub const HOST: &'static str = "0.0.0.0";

/// The port to listen on.
pub const PORT: u16 = 8082;

/// The line printed once the port is bound.
pub const LISTENING: &'static str = "HTTP Server in Rust listening on port 8082";

/// Where a listener stands.
#[derive(Debug, Clone, Copy, PartialEq, Eq, Structural)]
pub enum ListenerPhase {
    /// The bind has been asked for.
    Binding,
    /// The port is bound and an accept has been asked for.
    Accepting,
    /// The bind failed; there is nothing left to do.
    Unbound,
}

/// How the bind, or one accept, ended.
#[derive(Debug, PartialEq, Eq)]
pub enum Attempt {
    /// The port is bound, or a connection was accepted.
    Succeeded,
    /// It failed, with `detail` as the error's text.
    Failed { detail: String },
}

/// An [`Attempt`] as contracts see it.
pub enum AttemptView {
    Succeeded,
    Failed { detail: Seq<char> },
}

impl View for Attempt {
    type V = AttemptView;

    open spec fn view(&self) -> AttemptView {
        match self {
            Attempt::Succeeded => AttemptView::Succeeded,
            Attempt::Failed { detail } => AttemptView::Failed { detail: detail@ },
        }
    }
}

/// What the caller is to do with the listening socket.
#[derive(Debug, PartialEq, Eq)]
pub enum ListenerAction {
    /// Bind `port` on `host`.
    Bind { host: String, port: u16 },
    /// Accept the next connection.
    Accept,
    /// Give the connection just accepted to a handler of its own, without waiting for that
    /// handler, and accept the next connection.
    Dispatch,
    /// Stop the process at once, with `reason` as the message.
    Abort { reason: String },
}

/// A [`ListenerAction`] as contracts see it.
pub enum ListenerActionView {
    Bind { host: Seq<char>, port: u16 },
    Accept,
    Dispatch,
    Abort { reason: Seq<char> },
}

impl View for ListenerAction {
    type V = ListenerActionView;

    open spec fn view(&self) -> ListenerActionView {
        match self {
            ListenerAction::Bind { host, port } => ListenerActionView::Bind {
                host: host@,
                port: *port,
            },
            ListenerAction::Accept => ListenerActionView::Accept,
            ListenerAction::Dispatch => ListenerActionView::Dispatch,
            ListenerAction::Abort { reason } => ListenerActionView::Abort { reason: reason@ },
        }
    }
}

/// A line to print, if any, and then the action to perform.
#[derive(Debug, PartialEq, Eq)]
pub struct ListenerStep {
    pub notice: Option<Notice>,
    pub action: ListenerAction,
}

/// A [`ListenerStep`] as contracts see it.
pub struct ListenerStepView {
    pub notice: Option<NoticeView>,
    pub action: ListenerActionView,
}

impl View for ListenerStep {
    type V = ListenerStepView;

    open spec fn view(&self) -> ListenerStepView {
        ListenerStepView {
            notice: match self.notice {
                Some(notice) => Some(notice@),
                None => None,
            },
            action: self.action@,
        }
    }
}

/// The first step of the listener: bind the fixed port on every interface.
pub open spec fn binding() -> ListenerStepView {
    ListenerStepView {
        notice: None,
        action: ListenerActionView::Bind { host: HOST@, port: PORT },
    }
}

/// The step once the port is bound: say so, and accept.
pub open spec fn listening() -> ListenerStepView {
    ListenerStepView {
        notice: Some(NoticeView { channel: Channel::Stdout, text: LISTENING@ }),
        action: ListenerActionView::Accept,
    }
}

/// The step when the port cannot be bound: stop, and say why.
pub open spec fn refusing(detail: Seq<char>) -> ListenerStepView {
    ListenerStepView {
        notice: None,
        action: ListenerActionView::Abort { reason: "Could not bind: "@ + detail },
    }
}

/// The step after a connection was accepted.
pub open spec fn dispatching() -> ListenerStepView {
    ListenerStepView { notice: None, action: ListenerActionView::Dispatch }
}

/// The step after an accept failed: report it, and accept again.
pub open spec fn carrying_on(detail: Seq<char>) -> ListenerStepView {
    ListenerStepView {
        notice: Some(labelled(Channel::Stderr, "Connection failed: "@, detail)),
        action: ListenerActionView::Accept,
    }
}

/// The step of a listener that never bound its port.
pub open spec fn unbound() -> ListenerStepView {
    ListenerStepView {
        notice: None,
        action: ListenerActionView::Abort { reason: "Could not bind"@ },
    }
}

/// The transition: the phase and the step that follow `attempt` in `phase`.
pub open spec fn advance(phase: ListenerPhase, attempt: AttemptView) -> (
    ListenerPhase,
    ListenerStepView,
) {
    match phase {
        ListenerPhase::Binding => match attempt {
            AttemptView::Succeeded => (ListenerPhase::Accepting, listening()),
            AttemptView::Failed { detail } => (ListenerPhase::Unbound, refusing(detail)),
        },
        ListenerPhase::Accepting => match attempt {
            AttemptView::Succeeded => (ListenerPhase::Accepting, dispatching()),
            AttemptView::Failed { detail } => (ListenerPhase::Accepting, carrying_on(detail)),
        },
        ListenerPhase::Unbound => (ListenerPhase::Unbound, unbound()),
    }
}

/// The listener.
pub struct Listener {
    phase: ListenerPhase,
}

impl View for Listener {
    type V = ListenerPhase;

    closed spec fn view(&self) -> ListenerPhase {
        self.phase
    }
}

impl Listener {
    /// A listener that has bound nothing yet, with its first step.
    pub fn start() -> (started: (Listener, ListenerStep))
        ensures
            started.0@ == ListenerPhase::Binding,
            started.1@ == binding(),
    {
        (
            Listener { phase: ListenerPhase::Binding },
            ListenerStep {
                notice: None,
                action: ListenerAction::Bind { host: String::from_str(HOST), port: PORT },
            },
        )
    }

    /// Where the listener stands.
    pub fn phase(&self) -> (phase: ListenerPhase)
        ensures
            phase == self@,
    {
        self.phase
    }

    /// Takes the outcome of the bind or of the last accept and says what comes next.
    pub fn step(&mut self, attempt: Attempt) -> (step: ListenerStep)
        ensures
            final(self)@ == advance(old(self)@, attempt@).0,
            step@ == advance(old(self)@, attempt@).1,
    {
        match self.phase {
            ListenerPhase::Binding => match attempt {
                Attempt::Succeeded => {
                    self.phase = ListenerPhase::Accepting;
                    ListenerStep {
                        notice: Some(
                            Notice { channel: Channel::Stdout, text: String::from_str(LISTENING) },
                        ),
                        action: ListenerAction::Accept,
                    }
                },
                Attempt::Failed { detail } => {
                    self.phase = ListenerPhase::Unbound;
                    let mut reason = String::from_str("Could not bind: ");
                    reason.append(detail.as_str());
                    ListenerStep { notice: None, action: ListenerAction::Abort { reason } }
                },
            },
            ListenerPhase::Accepting => match attempt {
                Attempt::Succeeded => ListenerStep {
                    notice: None,
                    action: ListenerAction::Dispatch,
                },
                Attempt::Failed { detail } => ListenerStep {
                    notice: Some(
                        Notice::labelled(Channel::Stderr, "Connection failed: ", detail.as_str()),
                    ),
                    action: ListenerAction::Accept,
                },
            },
            ListenerPhase::Unbound => ListenerStep {
                notice: None,
                action: ListenerAction::Abort { reason: String::from_str("Could not bind") },
            },
        }
    }
}

/// The steps that a listener in `phase` answers to `attempts` with, one for each.
pub open spec fn steps(phase: ListenerPhase, attempts: Seq<AttemptView>) -> Seq<ListenerStepView>
    decreases attempts.len(),
{
    if attempts.len() == 0 {
        Seq::empty()
    } else {
        steps(phase, attempts.drop_last()).push(
            advance(phase_reached(phase, attempts.drop_last()), attempts.last()).1,
        )
    }
}

/// The phase that a listener in `phase` reaches through `attempts`.
pub open spec fn phase_reached(phase: ListenerPhase, attempts: Seq<AttemptView>) -> ListenerPhase
    decreases attempts.len(),
{
    if attempts.len() == 0 {
        phase
    } else {
        advance(phase_reached(phase, attempts.drop_last()), attempts.last()).0
    }
}

/// How many of `attempts` succeeded.
pub open spec fn successes(attempts: Seq<AttemptView>) -> nat
    decreases attempts.len(),
{
    if attempts.len() == 0 {
        0
    } else if attempts.last() is Succeeded {
        successes(attempts.drop_last()) + 1
    } else {
        successes(attempts.drop_last())
    }
}

/// How many of `steps` hand a connection to a handler.
pub open spec fn dispatches(steps: Seq<ListenerStepView>) -> nat
    decreases steps.len(),
{
    if steps.len() == 0 {
        0
    } else if steps.last().action is Dispatch {
        dispatches(steps.drop_last()) + 1
    } else {
        dispatches(steps.drop_last())
    }
}

/// Taking `attempts` and then `more` is taking them one after the other.
pub proof fn lemma_steps_in_two_parts(
    phase: ListenerPhase,
    attempts: Seq<AttemptView>,
    more: Seq<AttemptView>,
)
    ensures
        phase_reached(phase, attempts + more) == phase_reached(
            phase_reached(phase, attempts),
            more,
        ),
        steps(phase, attempts + more) == steps(phase, attempts) + steps(
            phase_reached(phase, attempts),
            more,
        ),
    decreases more.len(),
{
    let then = phase_reached(phase, attempts);
    if more.len() == 0 {
        assert(attempts + more =~= attempts);
        assert(steps(phase, attempts) + steps(then, more) =~= steps(phase, attempts));
    } else {
        let all = attempts + more;
        assert(all.drop_last() =~= attempts + more.drop_last());
        assert(all.last() == more.last());
        lemma_steps_in_two_parts(phase, attempts, more.drop_last());
        assert(steps(phase, all) =~= steps(phase, attempts) + steps(then, more));
    }
}

/// Once the port is bound the listener accepts for ever: whatever the accepts bring, and
/// however many of them fail, it stays in the accepting phase, never asks to stop, and
/// every step ends in a new accept.
pub proof fn lemma_accepting_never_ends(attempts: Seq<AttemptView>)
    ensures
        phase_reached(ListenerPhase::Accepting, attempts) == ListenerPhase::Accepting,
        steps(ListenerPhase::Accepting, attempts).len() == attempts.len(),
        forall|i: int|
            0 <= i < attempts.len() ==> {
                let step = #[trigger] steps(ListenerPhase::Accepting, attempts)[i];
                &&& attempts[i] is Succeeded ==> step == dispatching()
                &&& attempts[i] matches AttemptView::Failed { detail } ==> step == carrying_on(
                    detail,
                )
            },
    decreases attempts.len(),
{
    if attempts.len() > 0 {
        let front = attempts.drop_last();
        lemma_accepting_never_ends(front);
        assert forall|i: int| 0 <= i < attempts.len() implies {
            let step = #[trigger] steps(ListenerPhase::Accepting, attempts)[i];
            &&& attempts[i] is Succeeded ==> step == dispatching()
            &&& attempts[i] matches AttemptView::Failed { detail } ==> step == carrying_on(detail)
        } by {
            if i < front.len() {
                assert(steps(ListenerPhase::Accepting, attempts)[i] == steps(
                    ListenerPhase::Accepting,
                    front,
                )[i]);
                assert(front[i] == attempts[i]);
            }
        }
    }
}

/// Every accepted connection gets exactly one handler: the listener dispatches as often as
/// an accept succeeded, no more and no less.
pub proof fn lemma_one_handler_for_each_connection(attempts: Seq<AttemptView>)
    ensures
        dispatches(steps(ListenerPhase::Accepting, attempts)) == successes(attempts),
    decreases attempts.len(),
{
    if attempts.len() > 0 {
        let front = attempts.drop_last();
        lemma_one_handler_for_each_connection(front);
        lemma_accepting_never_ends(front);
        let all = steps(ListenerPhase::Accepting, attempts);
        assert(all.drop_last() =~= steps(ListenerPhase::Accepting, front));
    }
}

/// A listener whose bind succeeds says that it listens and then accepts for ever,
/// dispatching once for each accepted connection.
pub proof fn lemma_bound_listener_serves(accepts: Seq<AttemptView>)
    ensures
        steps(ListenerPhase::Binding, seq![AttemptView::Succeeded] + accepts) == seq![
            listening(),
        ] + steps(ListenerPhase::Accepting, accepts),
        phase_reached(ListenerPhase::Binding, seq![AttemptView::Succeeded] + accepts)
            == ListenerPhase::Accepting,
        dispatches(steps(ListenerPhase::Binding, seq![AttemptView::Succeeded] + accepts))
            == successes(accepts),
{
    let bind = seq![AttemptView::Succeeded];
    lemma_first_step(ListenerPhase::Binding, AttemptView::Succeeded);
    lemma_steps_in_two_parts(ListenerPhase::Binding, bind, accepts);
    lemma_accepting_never_ends(accepts);
    lemma_one_handler_for_each_connection(accepts);
    lemma_dispatches_in_two_parts(seq![listening()], steps(ListenerPhase::Accepting, accepts));
    assert(dispatches(seq![listening()]) == 0) by {
        let one = seq![listening()];
        assert(one.last() == listening());
        assert(one.drop_last().len() == 0);
        assert(dispatches(one.drop_last()) == 0);
    }
}

/// A failed bind is final: the listener asks to stop, with the error in the message, and
/// from then on does nothing else. It never accepts and never dispatches.
pub proof fn lemma_failed_bind_is_final(detail: Seq<char>, later: Seq<AttemptView>)
    ensures
        steps(ListenerPhase::Binding, seq![AttemptView::Failed { detail }] + later) == seq![
            refusing(detail),
        ] + steps(ListenerPhase::Unbound, later),
        phase_reached(ListenerPhase::Binding, seq![AttemptView::Failed { detail }] + later)
            == ListenerPhase::Unbound,
        steps(ListenerPhase::Unbound, later).len() == later.len(),
        forall|i: int|
            0 <= i < later.len() ==> #[trigger] steps(ListenerPhase::Unbound, later)[i]
                == unbound(),
{
    let bind = seq![AttemptView::Failed { detail }];
    lemma_first_step(ListenerPhase::Binding, AttemptView::Failed { detail });
    lemma_steps_in_two_parts(ListenerPhase::Binding, bind, later);
    lemma_unbound_stays(later);
}

proof fn lemma_first_step(phase: ListenerPhase, attempt: AttemptView)
    ensures
        steps(phase, seq![attempt]) == seq![advance(phase, attempt).1],
        phase_reached(phase, seq![attempt]) == advance(phase, attempt).0,
{
    let one = seq![attempt];
    assert(one.drop_last().len() == 0);
    assert(one.last() == attempt);
    assert(phase_reached(phase, one.drop_last()) == phase);
    assert(steps(phase, one.drop_last()) =~= Seq::<ListenerStepView>::empty());
    assert(steps(phase, one) =~= seq![advance(phase, attempt).1]);
}

proof fn lemma_unbound_stays(attempts: Seq<AttemptView>)
    ensures
        phase_reached(ListenerPhase::Unbound, attempts) == ListenerPhase::Unbound,
        steps(ListenerPhase::Unbound, attempts).len() == attempts.len(),
        forall|i: int|
            0 <= i < attempts.len() ==> #[trigger] steps(ListenerPhase::Unbound, attempts)[i]
                == unbound(),
    decreases attempts.len(),
{
    if attempts.len() > 0 {
        lemma_unbound_stays(attempts.drop_last());
    }
}

proof fn lemma_dispatches_in_two_parts(first: Seq<ListenerStepView>, second: Seq<ListenerStepView>)
    ensures
        dispatches(first + second) == dispatches(first) + dispatches(second),
    decreases second.len(),
{
    if second.len() == 0 {
        assert(first + second =~= first);
    } else {
        let all = first + second;
        assert(all.drop_last() =~= first + second.drop_last());
        assert(all.last() == second.last());
        lemma_dispatches_in_two_parts(first, second.drop_last());
    }
}

} // verus!
