//! One connection from its first step to its last, as a sequence of steps, and what holds
//! of every such sequence.

use vstd::prelude::*;

use crate::handler::{
    answer, closing, flushing, idle, next, opening, ActionView, CompletionView, Phase, Stage,
    StepView,
};
use crate::request::{
    as_chars, as_text, captured, is_ascii_bytes, lemma_ascii_as_text, lemma_captured_ascii, taken,
    BUFFER_SIZE,
};
use crate::response::response_octets;

verus! {

/// The phase that a handler in `phase` reaches through `completions`.
pub open spec fn phase_after(phase: Phase, completions: Seq<CompletionView>) -> Phase
    decreases completions.len(),
{
    if completions.len() == 0 {
        phase
    } else {
        next(phase_after(phase, completions.drop_last()), completions.last()).0
    }
}

/// The steps that a handler in `phase` answers to `completions` with, one for each.
pub open spec fn run(phase: Phase, completions: Seq<CompletionView>) -> Seq<StepView>
    decreases completions.len(),
{
    if completions.len() == 0 {
        Seq::empty()
    } else {
        run(phase, completions.drop_last()).push(
            next(phase_after(phase, completions.drop_last()), completions.last()).1,
        )
    }
}

/// Every step of one connection whose operations end as `completions` say: the opening
/// step, then the answer to each completion.
pub open spec fn session(completions: Seq<CompletionView>) -> Seq<StepView> {
    seq![opening()] + run(Phase::Awaiting(Stage::Read), completions)
}

/// The bytes that `step` asks to write.
pub open spec fn payload(step: StepView) -> Seq<u8> {
    match step.action {
        ActionView::Write { payload } => payload,
        _ => Seq::empty(),
    }
}

/// All bytes that `steps` ask to write, in order.
pub open spec fn written(steps: Seq<StepView>) -> Seq<u8>
    decreases steps.len(),
{
    if steps.len() == 0 {
        Seq::empty()
    } else {
        written(steps.drop_last()) + payload(steps.last())
    }
}

/// Whether the read of a connection with these completions succeeded.
pub open spec fn read_succeeded(completions: Seq<CompletionView>) -> bool {
    completions.len() > 0 && completions[0] is Done
}

/// The answer to each completion is the transition out of the phase that the completions
/// before it led to.
pub proof fn lemma_run_by_index(phase: Phase, completions: Seq<CompletionView>)
    ensures
        run(phase, completions).len() == completions.len(),
        forall|i: int|
            0 <= i < completions.len() ==> #[trigger] run(phase, completions)[i] == next(
                phase_after(phase, completions.take(i)),
                completions[i],
            ).1,
    decreases completions.len(),
{
    if completions.len() > 0 {
        let front = completions.drop_last();
        lemma_run_by_index(phase, front);
        assert forall|i: int| 0 <= i < completions.len() implies #[trigger] run(
            phase,
            completions,
        )[i] == next(phase_after(phase, completions.take(i)), completions[i]).1 by {
            if i < front.len() {
                assert(front.take(i) =~= completions.take(i));
            } else {
                assert(completions.take(i) =~= front);
            }
        }
    }
}

/// A handler moves on with every completion: after one it no longer awaits the read, after
/// two it no longer awaits the write, and after three it is closed, whatever they were.
pub proof fn lemma_progress(completions: Seq<CompletionView>)
    ensures
        completions.len() >= 1 ==> phase_after(Phase::Awaiting(Stage::Read), completions)
            != Phase::Awaiting(Stage::Read),
        completions.len() >= 2 ==> phase_after(Phase::Awaiting(Stage::Read), completions)
            != Phase::Awaiting(Stage::Write),
        completions.len() >= 3 ==> !(phase_after(Phase::Awaiting(Stage::Read), completions)
            is Awaiting),
    decreases completions.len(),
{
    if completions.len() > 0 {
        lemma_progress(completions.drop_last());
    }
}

/// A closed handler does not change and asks for nothing but the close.
pub proof fn lemma_closed_stays_closed(phase: Phase, completions: Seq<CompletionView>)
    requires
        !(phase is Awaiting),
    ensures
        phase_after(phase, completions) == phase,
        run(phase, completions).len() == completions.len(),
        forall|i: int|
            0 <= i < completions.len() ==> #[trigger] run(phase, completions)[i] == idle(),
    decreases completions.len(),
{
    if completions.len() > 0 {
        lemma_closed_stays_closed(phase, completions.drop_last());
    }
}

proof fn lemma_written_once(steps: Seq<StepView>, at: int)
    requires
        forall|i: int| 0 <= i < steps.len() && i != at ==> payload(#[trigger] steps[i]).len() == 0,
    ensures
        written(steps) == if 0 <= at < steps.len() {
            payload(steps[at])
        } else {
            Seq::empty()
        },
    decreases steps.len(),
{
    if steps.len() > 0 {
        let front = steps.drop_last();
        assert forall|i: int| 0 <= i < front.len() && i != at implies payload(
            #[trigger] front[i],
        ).len() == 0 by {
            assert(front[i] == steps[i]);
        }
        lemma_written_once(front, at);
        if at == steps.len() - 1 {
            assert(written(front) + payload(steps.last()) =~= payload(steps[at]));
        } else {
            assert(payload(steps.last()) =~= Seq::<u8>::empty());
            if 0 <= at < front.len() {
                assert(front[at] == steps[at]);
            }
            assert(written(front) + payload(steps.last()) =~= written(front));
        }
    }
}

/// The shape of every connection. There is one step more than there are completions. The
/// first step is the only read, of at most `BUFFER_SIZE` bytes, so nothing is written
/// before the read has completed. The only write is the second step, and only where the
/// read succeeded; it is the whole response, whatever was received. Where the read failed
/// the second step closes the connection.
pub proof fn lemma_session_shape(completions: Seq<CompletionView>)
    ensures
        session(completions).len() == completions.len() + 1,
        session(completions)[0] == opening(),
        forall|i: int|
            0 < i < session(completions).len() ==> !(#[trigger] session(
                completions,
            )[i].action is Read),
        forall|i: int|
            0 <= i < session(completions).len() && i != 1 ==> !(#[trigger] session(
                completions,
            )[i].action is Write),
        read_succeeded(completions) ==> session(completions)[1].action == (ActionView::Write {
            payload: response_octets(),
        }),
        completions.len() > 0 && !read_succeeded(completions) ==> session(
            completions,
        )[1].action is Close,
{
    let start = Phase::Awaiting(Stage::Read);
    lemma_run_by_index(start, completions);
    assert forall|i: int| 0 < i < session(completions).len() implies !(#[trigger] session(
        completions,
    )[i].action is Read) && (i != 1 ==> !(session(completions)[i].action is Write)) by {
        assert(session(completions)[i] == run(start, completions)[i - 1]);
        lemma_progress(completions.take(i - 1));
    }
    if completions.len() > 0 {
        assert(session(completions)[1] == run(start, completions)[0]);
        assert(completions.take(0).len() == 0);
    }
}

/// A connection on which every operation succeeds takes four steps: the read; the report of
/// the request and the write of the response; the flush; the report of the response and
/// the close. What the write and the flush are said to have received changes nothing.
pub proof fn lemma_healthy_session(received: Seq<u8>, stray: Seq<u8>, other: Seq<u8>)
    ensures
        session(
            seq![
                CompletionView::Done { received },
                CompletionView::Done { received: stray },
                CompletionView::Done { received: other },
            ],
        ) == seq![opening(), answer(as_text(captured(received))), flushing(), closing()],
        phase_after(
            Phase::Awaiting(Stage::Read),
            seq![
                CompletionView::Done { received },
                CompletionView::Done { received: stray },
                CompletionView::Done { received: other },
            ],
        ) == Phase::Served,
{
    let start = Phase::Awaiting(Stage::Read);
    let all = seq![
        CompletionView::Done { received },
        CompletionView::Done { received: stray },
        CompletionView::Done { received: other },
    ];
    lemma_run_by_index(start, all);
    let none = all.take(0);
    let one = all.take(1);
    let two = all.take(2);
    assert(phase_after(start, none) == start);
    assert(one.drop_last() =~= none && one.last() == all[0]);
    assert(phase_after(start, one) == Phase::Awaiting(Stage::Write));
    assert(two.drop_last() =~= one && two.last() == all[1]);
    assert(phase_after(start, two) == Phase::Awaiting(Stage::Flush));
    assert(all.drop_last() =~= two && all.last() == all[2]);
    assert(phase_after(start, all) == Phase::Served);
    assert(session(all) =~= seq![
        opening(),
        answer(as_text(captured(received))),
        flushing(),
        closing(),
    ]);
}

/// Whatever a client sends, and however the operations on its connection end, the bytes
/// that the handler asks to write are the whole response if the read succeeded, and none at
/// all if it did not: never a part of the response, and never anything else.
pub proof fn lemma_session_writes_response_or_nothing(completions: Seq<CompletionView>)
    ensures
        read_succeeded(completions) ==> written(session(completions)) == response_octets(),
        !read_succeeded(completions) ==> written(session(completions)) == Seq::<u8>::empty(),
{
    lemma_session_shape(completions);
    let steps = session(completions);
    assert forall|i: int| 0 <= i < steps.len() && i != 1 implies payload(
        #[trigger] steps[i],
    ).len() == 0 by {
        assert(!(steps[i].action is Write));
    }
    lemma_written_once(steps, 1);
}

/// Only what the one read took counts. It takes the first `BUFFER_SIZE` bytes at most, and
/// two payloads that agree on the bytes taken lead to the same step, which asks to write
/// the response as after any other read. So whatever a client sends beyond the buffer's
/// size is never looked at.
pub proof fn lemma_only_what_was_taken_counts(first: Seq<u8>, second: Seq<u8>)
    requires
        first.take(taken(first) as int) == second.take(taken(second) as int),
    ensures
        taken(first) <= BUFFER_SIZE,
        first.len() >= BUFFER_SIZE ==> taken(first) == BUFFER_SIZE,
        next(Phase::Awaiting(Stage::Read), CompletionView::Done { received: first }) == next(
            Phase::Awaiting(Stage::Read),
            CompletionView::Done { received: second },
        ),
        next(Phase::Awaiting(Stage::Read), CompletionView::Done { received: first }).1.action
            == (ActionView::Write { payload: response_octets() }),
{
    assert(first.take(taken(first) as int).len() == taken(first));
    assert(second.take(taken(second) as int).len() == taken(second));
    assert(captured(first) =~= captured(second));
}

/// A request in plain ASCII is reported as it came: the line for standard output is the
/// label followed by the buffer character for character, which is what the read took of
/// the request and then NULs up to the buffer's size.
pub proof fn lemma_ascii_request_is_reported_verbatim(received: Seq<u8>)
    requires
        is_ascii_bytes(received),
    ensures
        next(Phase::Awaiting(Stage::Read), CompletionView::Done { received }).1 == answer(
            as_chars(captured(received)),
        ),
{
    lemma_captured_ascii(received);
    lemma_ascii_as_text(captured(received));
}

/// A client that sends nothing keeps the handler at its read: before the read has ended
/// the handler has asked for that read and for nothing else. If the read then ends in an
/// error, the handler closes the connection without having asked to write a single byte,
/// and stays closed.
pub proof fn lemma_failed_read_closes_silently(completions: Seq<CompletionView>)
    requires
        completions.len() > 0,
        completions[0] is Failed,
    ensures
        session(Seq::empty()) == seq![opening()],
        phase_after(Phase::Awaiting(Stage::Read), Seq::empty()) == Phase::Awaiting(Stage::Read),
        written(session(completions)) == Seq::<u8>::empty(),
        phase_after(Phase::Awaiting(Stage::Read), completions) == Phase::Aborted(Stage::Read),
        forall|i: int|
            1 <= i < session(completions).len() ==> #[trigger] session(
                completions,
            )[i].action is Close,
{
    let start = Phase::Awaiting(Stage::Read);
    assert(session(Seq::empty()) =~= seq![opening()]);
    lemma_session_writes_response_or_nothing(completions);
    lemma_run_by_index(start, completions);
    lemma_aborted_read_stays(completions, completions.len() as int);
    assert(completions.take(completions.len() as int) =~= completions);
    assert forall|i: int| 1 <= i < session(completions).len() implies #[trigger] session(
        completions,
    )[i].action is Close by {
        assert(session(completions)[i] == run(start, completions)[i - 1]);
        if i > 1 {
            lemma_aborted_read_stays(completions, i - 1);
        } else {
            assert(completions.take(0).len() == 0);
        }
    }
}

proof fn lemma_aborted_read_stays(completions: Seq<CompletionView>, upto: int)
    requires
        completions.len() > 0,
        completions[0] is Failed,
        1 <= upto <= completions.len(),
    ensures
        phase_after(Phase::Awaiting(Stage::Read), completions.take(upto)) == Phase::Aborted(
            Stage::Read,
        ),
    decreases upto,
{
    let start = Phase::Awaiting(Stage::Read);
    let prefix = completions.take(upto);
    let front = prefix.drop_last();
    assert(front =~= completions.take(upto - 1));
    assert(phase_after(start, prefix) == next(phase_after(start, front), prefix.last()).0);
    if upto > 1 {
        lemma_aborted_read_stays(completions, upto - 1);
    } else {
        assert(front.len() == 0);
        assert(phase_after(start, front) == start);
        assert(prefix.last() == completions[0]);
    }
}

} // verus!
