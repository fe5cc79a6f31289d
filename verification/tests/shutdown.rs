use hello_http::console::{Channel, Notice};
use hello_http::handler::{Completion, Handler};
use hello_http::shutdown::{handled_signals, on_signal, Exit, EXIT_CODE, FAREWELL, SIGINT, SIGTERM};

fn farewell() -> Exit {
    Exit {
        notice: Notice {
            channel: Channel::Stdout,
            text: String::from("\nServer terminated gracefully"),
        },
        code: 0,
    }
}

#[test]
fn the_signal_numbers_are_those_of_interrupt_and_termination() {
    assert_eq!(SIGINT, 2);
    assert_eq!(SIGTERM, 15);
    assert_eq!(handled_signals(), vec![2, 15]);
}

#[test]
fn an_interrupt_ends_the_process_with_the_farewell_and_status_0() {
    assert_eq!(on_signal(SIGINT), farewell());
}

#[test]
fn a_termination_request_ends_the_process_with_the_farewell_and_status_0() {
    assert_eq!(on_signal(SIGTERM), farewell());
}

#[test]
fn the_farewell_starts_on_a_new_line() {
    assert_eq!(FAREWELL, "\nServer terminated gracefully");
    assert_eq!(FAREWELL.len(), 29);
    assert_eq!(EXIT_CODE, 0);
}

#[test]
fn the_reaction_is_the_same_for_any_signal() {
    for signal in [i32::MIN, -1, 0, 1, 2, 9, 15, 64, i32::MAX] {
        assert_eq!(on_signal(signal), farewell());
    }
}

#[test]
fn the_exit_does_not_wait_for_open_connections() {
    let (mut reading, _) = Handler::start();
    let (mut writing, _) = Handler::start();
    writing.step(Completion::Done { received: b"GET /".to_vec() });
    assert_eq!(on_signal(SIGINT), farewell());
    assert!(!reading.is_closed());
    assert!(!writing.is_closed());
    reading.step(Completion::Done { received: Vec::new() });
    assert!(!reading.is_closed());
}
