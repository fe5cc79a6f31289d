//! What an interrupt or a termination request leads to: a farewell and an immediate exit.

use vstd::prelude::*;
use vstd::string::*;

use crate::console::{Channel, Notice, NoticeView};

verus! {

/// The interrupt signal.
pub const SIGINT: i32 = 2;

/// The termination signal.
pub const SIGTERM: i32 = 15;

/// The last line the server prints. It begins on a line of its own.
pub const FAREWELL: &'static str = "\nServer terminated gracefully";

/// The exit status after a signal.
pub const EXIT_CODE: i32 = 0;

/// How the process ends: `notice` is printed, then the process exits with `code`, at once
/// and without waiting for any connection.
#[derive(Debug, PartialEq, Eq)]
pub struct Exit {
    pub notice: Notice,
    pub code: i32,
}

/// The farewell as a line for standard output.
pub open spec fn farewell() -> NoticeView {
    NoticeView { channel: Channel::Stdout, text: FAREWELL@ }
}

/// Whether the server reacts to `signal`.
pub open spec fn is_handled(signal: i32) -> bool {
    signal == SIGINT || signal == SIGTERM
}

/// The signals to react to: the interrupt and the termination request, each once.
pub fn handled_signals() -> (signals: Vec<i32>)
    ensures
        signals@ == seq![SIGINT, SIGTERM],
        forall|signal: i32| signals@.contains(signal) <==> is_handled(signal),
{
    let mut signals: Vec<i32> = Vec::new();
    signals.push(SIGINT);
    signals.push(SIGTERM);
    assert(signals@ =~= seq![SIGINT, SIGTERM]);
    assert forall|signal: i32| is_handled(signal) implies signals@.contains(signal) by {
        assert(signals@[0] == SIGINT);
        assert(signals@[1] == SIGTERM);
    }
    signals
}

/// The reaction to a signal. It is the same for every signal and looks at nothing else: the
/// farewell, and exit status 0.
pub fn on_signal(_signal: i32) -> (exit: Exit)
    ensures
        exit.notice@ == farewell(),
        exit.code == EXIT_CODE,
{
    Exit {
        notice: Notice { channel: Channel::Stdout, text: String::from_str(FAREWELL) },
        code: EXIT_CODE,
    }
}

} // verus!
