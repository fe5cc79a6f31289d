//! Many connections at once: their handlers' operations end in whatever order the clients
//! and the scheduler bring about, and no handler is affected by another.

use vstd::prelude::*;

use crate::handler::{next, opening, CompletionView, Phase, Stage, StepView};
use crate::response::response_octets;
use crate::session::{
    lemma_session_writes_response_or_nothing, phase_after, read_succeeded, run, session, written,
};

verus! {

/// One event in the life of a server: the operation that the handler of `connection`
/// awaited has ended as `completion` says.
pub struct Report {
    pub connection: int,
    pub completion: CompletionView,
}

/// The phase of the handler of `connection`, where `table` holds the phases of the handlers
/// that have been reported on. Any other handler is as it was started.
pub open spec fn phase_in(table: Map<int, Phase>, connection: int) -> Phase {
    if table.dom().contains(connection) {
        table[connection]
    } else {
        Phase::Awaiting(Stage::Read)
    }
}

/// The phases of the handlers after `reports`, each taken by the handler of its connection.
pub open spec fn table_after(reports: Seq<Report>) -> Map<int, Phase>
    decreases reports.len(),
{
    if reports.len() == 0 {
        Map::empty()
    } else {
        let before = table_after(reports.drop_last());
        let report = reports.last();
        before.insert(
            report.connection,
            next(phase_in(before, report.connection), report.completion).0,
        )
    }
}

/// The step with which the last of `reports` is answered.
pub open spec fn last_answer(reports: Seq<Report>) -> StepView
    recommends
        reports.len() > 0,
{
    let report = reports.last();
    next(phase_in(table_after(reports.drop_last()), report.connection), report.completion).1
}

/// The completions of `connection` among `reports`, in order.
pub open spec fn own(reports: Seq<Report>, connection: int) -> Seq<CompletionView>
    decreases reports.len(),
{
    if reports.len() == 0 {
        Seq::empty()
    } else if reports.last().connection == connection {
        own(reports.drop_last(), connection).push(reports.last().completion)
    } else {
        own(reports.drop_last(), connection)
    }
}

/// The steps with which the reports of `connection` among `reports` are answered, in order.
pub open spec fn answers(reports: Seq<Report>, connection: int) -> Seq<StepView>
    decreases reports.len(),
{
    if reports.len() == 0 {
        Seq::empty()
    } else if reports.last().connection == connection {
        answers(reports.drop_last(), connection).push(last_answer(reports))
    } else {
        answers(reports.drop_last(), connection)
    }
}

/// However the reports of any number of connections are interleaved, each connection is
/// served as if it were alone: its handler goes through the phases and gives the steps
/// that its own completions lead to, and where its read succeeded, what it is asked to
/// write is the response, whole and unchanged.
pub proof fn lemma_connections_do_not_interfere(reports: Seq<Report>, connection: int)
    ensures
        phase_in(table_after(reports), connection) == phase_after(
            Phase::Awaiting(Stage::Read),
            own(reports, connection),
        ),
        answers(reports, connection) == run(Phase::Awaiting(Stage::Read), own(reports, connection)),
        seq![opening()] + answers(reports, connection) == session(own(reports, connection)),
        read_succeeded(own(reports, connection)) ==> written(
            seq![opening()] + answers(reports, connection),
        ) == response_octets(),
    decreases reports.len(),
{
    if reports.len() > 0 {
        lemma_connections_do_not_interfere(reports.drop_last(), connection);
        if reports.last().connection == connection {
            let mine = own(reports, connection);
            assert(mine.drop_last() =~= own(reports.drop_last(), connection));
        }
    }
    lemma_session_writes_response_or_nothing(own(reports, connection));
}

} // verus!
