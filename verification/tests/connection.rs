use luneweb::connection::{
    make_shutdown_signal, stop_outcome, LuaConnection, ShutdownReceiver, StopOutcome,
    NOT_REQUESTED, STOP_REQUESTED,
};

/// Runs a loop that leaves when the signal says so, for at most `limit`
/// rounds, and answers how many rounds it ran.
fn run_loop(signal: &ShutdownReceiver, limit: usize) -> usize {
    let mut rounds = 0;
    while rounds < limit {
        if signal.stop_requested() {
            break;
        }
        rounds += 1;
    }
    rounds
}

#[test]
fn loop_leaves_on_the_first_round_after_stop() {
    let (mut handle, signal) = make_shutdown_signal();
    assert!(handle.connected());
    assert_eq!(run_loop(&signal, 5), 5);

    assert_eq!(handle.disconnect(), StopOutcome::Signalled);

    assert_eq!(run_loop(&signal, 5), 0);
    assert!(!handle.connected());
    assert_eq!(handle.disconnect(), StopOutcome::AlreadyStopped);
    assert_eq!(run_loop(&signal, 5), 0);
    assert!(!handle.connected());
}

#[test]
fn stopping_twice_is_the_same_as_stopping_once() {
    let (mut once, signal_once) = make_shutdown_signal();
    let (mut twice, signal_twice) = make_shutdown_signal();
    once.disconnect();
    twice.disconnect();
    twice.disconnect();
    assert_eq!(once.connected(), twice.connected());
    assert_eq!(signal_once.stop_requested(), signal_twice.stop_requested());
    assert!(signal_twice.stop_requested());
}

#[test]
fn stop_without_readers_is_no_error() {
    let (mut handle, signal) = make_shutdown_signal();
    drop(signal);
    assert_eq!(handle.disconnect(), StopOutcome::ChannelClosed);
    assert!(!handle.connected());
    assert_eq!(handle.disconnect(), StopOutcome::AlreadyStopped);
}

#[test]
fn signal_starts_without_a_request() {
    let (handle, signal) = make_shutdown_signal();
    assert!(!signal.stop_requested());
    assert!(handle.connected());
}

#[test]
fn stop_and_is_running_are_the_same_handle() {
    let (mut handle, signal) = make_shutdown_signal();
    assert!(handle.is_running());
    assert_eq!(handle.stop(), StopOutcome::Signalled);
    assert!(!handle.is_running());
    assert!(!handle.connected());
    assert_eq!(handle.stop(), StopOutcome::AlreadyStopped);
    assert!(signal.stop_requested());
}

#[test]
fn handle_for_a_channel_made_elsewhere() {
    let (tx, rx) = tokio::sync::watch::channel(false);
    let mut handle = LuaConnection::new(tx);
    let signal = ShutdownReceiver::new(rx);
    assert!(!signal.stop_requested());
    handle.disconnect();
    let rx = signal.into_inner();
    assert!(*rx.borrow());
}

#[test]
fn outcome_follows_what_the_channel_said() {
    assert_eq!(stop_outcome(true), StopOutcome::Signalled);
    assert_eq!(stop_outcome(false), StopOutcome::ChannelClosed);
}

#[test]
fn request_is_the_sender_and_true_once() {
    let (tx, rx) = tokio::sync::watch::channel(NOT_REQUESTED);
    let mut handle = LuaConnection::new(tx);
    let (sender, value) = handle.take_request().unwrap();
    assert_eq!(value, STOP_REQUESTED);
    assert!(value);
    assert!(!handle.connected());
    assert!(handle.take_request().is_none());
    assert!(!*rx.borrow());
    sender.send(value).unwrap();
    assert!(*rx.borrow());
}

#[test]
fn every_reader_sees_the_request() {
    let (mut handle, signal) = make_shutdown_signal();
    let rx = signal.into_inner();
    let second = ShutdownReceiver::new(rx.clone());
    let third = ShutdownReceiver::new(rx);
    assert!(!second.stop_requested());
    assert_eq!(handle.disconnect(), StopOutcome::Signalled);
    assert!(second.stop_requested());
    assert!(third.stop_requested());
}
