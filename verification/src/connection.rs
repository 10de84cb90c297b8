//! Cooperative shutdown of long-running loops: a signal with one writer and
//! any number of readers, and the handle that scripts hold to stop a loop.
//!
//! The signal is a `tokio` watch channel of one boolean, `false` until a
//! stop is requested. The handle gives up its sender with the first stop,
//! so that it can never take a request back.

use vstd::prelude::*;

verus! {

#[verifier::external_type_specification]
#[verifier::external_body]
#[verifier::reject_recursive_types(T)]
pub struct ExWatchSender<T>(tokio::sync::watch::Sender<T>);

#[verifier::external_type_specification]
#[verifier::external_body]
#[verifier::reject_recursive_types(T)]
pub struct ExWatchReceiver<T>(tokio::sync::watch::Receiver<T>);

/// Calls `tokio::sync::watch::channel` with the value that the channel
/// holds first. Nothing is claimed of the two ends: what they hold is
/// shared with whoever else holds an end.
#[verifier::external_body]
fn watch_channel(first: bool) -> (ends: (
    tokio::sync::watch::Sender<bool>,
    tokio::sync::watch::Receiver<bool>,
)) {
    tokio::sync::watch::channel(first)
}

/// Calls `tokio::sync::watch::Sender::send` and answers whether the value
/// was taken, which it is not when no receiver is left. Which of the two
/// happens depends on the other ends, so nothing is claimed of the answer.
#[verifier::external_body]
fn watch_send(tx: &tokio::sync::watch::Sender<bool>, value: bool) -> (taken: bool) {
    tx.send(value).is_ok()
}

/// Calls `tokio::sync::watch::Receiver::borrow` and copies the value out:
/// the value most recently sent, as far as this end has seen. It depends on
/// the sender, so nothing is claimed of it.
#[verifier::external_body]
fn watch_current(rx: &tokio::sync::watch::Receiver<bool>) -> (value: bool) {
    *rx.borrow()
}

/// The value that the signal holds once a stop was requested.
pub const STOP_REQUESTED: bool = true;

/// The value that the signal holds before any request.
pub const NOT_REQUESTED: bool = false;

/// What a call of `disconnect` did.
#[derive(Debug, Clone, Copy, PartialEq, Eq, Structural)]
pub enum StopOutcome {
    /// The request was sent to the readers.
    Signalled,
    /// No reader was left to tell; the handle is stopped all the same.
    ChannelClosed,
    /// The handle had been stopped before; nothing was sent.
    AlreadyStopped,
}

/// The handle to a running loop: it can stop the loop, once, and tell
/// whether it has done so.
pub struct LuaConnection {
    shutdown_tx: Option<tokio::sync::watch::Sender<bool>>,
}

/// The reading end of a shutdown signal, held by the loop.
pub struct ShutdownReceiver {
    rx: tokio::sync::watch::Receiver<bool>,
}

/// What a stop answers for what the channel said of the request: whether
/// a reader was there to take it.
pub fn stop_outcome(taken: bool) -> (outcome: StopOutcome)
    ensures
        outcome == (if taken {
            StopOutcome::Signalled
        } else {
            StopOutcome::ChannelClosed
        }),
{
    if taken {
        StopOutcome::Signalled
    } else {
        StopOutcome::ChannelClosed
    }
}

/// How a call of `disconnect` relates the handle before it, the handle
/// after it, and its answer.
pub open spec fn stop_relation(before: LuaConnection, after: LuaConnection, outcome: StopOutcome) -> bool {
    &&& !after.is_connected()
    &&& before.is_connected() ==> outcome != StopOutcome::AlreadyStopped
    &&& !before.is_connected() ==> outcome == StopOutcome::AlreadyStopped && after == before
}

impl LuaConnection {
    /// Whether the handle still holds its sender: no stop was requested
    /// through it.
    pub closed spec fn is_connected(&self) -> bool {
        self.shutdown_tx is Some
    }

    /// The handle for the sending end of a shutdown signal.
    pub fn new(shutdown_tx: tokio::sync::watch::Sender<bool>) -> (handle: Self)
        ensures
            handle.is_connected(),
            handle.sender() == Some(shutdown_tx),
    {
        LuaConnection { shutdown_tx: Some(shutdown_tx) }
    }

    /// Whether the loop has not been asked to stop through this handle.
    /// This reads the handle as it is now and subscribes to nothing.
    pub fn connected(&self) -> (res: bool)
        ensures
            res == self.is_connected(),
    {
        self.shutdown_tx.is_some()
    }

    /// The sender that the handle holds, while it holds one.
    pub closed spec fn sender(&self) -> Option<tokio::sync::watch::Sender<bool>> {
        self.shutdown_tx
    }

    /// Takes what a stop has to send out of the handle: the sender and the
    /// value `true`, which stands for "stop requested". A handle that was
    /// stopped before gives nothing and stays as it is.
    pub fn take_request(&mut self) -> (request: Option<(tokio::sync::watch::Sender<bool>, bool)>)
        ensures
            !final(self).is_connected(),
            match old(self).sender() {
                Some(tx) => request == Some((tx, STOP_REQUESTED)),
                None => request is None && *final(self) == *old(self),
            },
    {
        match self.shutdown_tx.take() {
            Some(tx) => Some((tx, STOP_REQUESTED)),
            None => None,
        }
    }

    /// Asks the loop to stop. The first call sends `true` through the
    /// handle's sender and gives the sender up; every later call does
    /// nothing. A signal without readers is no error.
    pub fn disconnect(&mut self) -> (outcome: StopOutcome)
        ensures
            stop_relation(*old(self), *final(self), outcome),
    {
        match self.take_request() {
            None => StopOutcome::AlreadyStopped,
            Some((tx, value)) => stop_outcome(watch_send(&tx, value)),
        }
    }
}

impl LuaConnection {
    /// Asks the loop to stop: another name for `disconnect`.
    pub fn stop(&mut self) -> (outcome: StopOutcome)
        ensures
            stop_relation(*old(self), *final(self), outcome),
    {
        self.disconnect()
    }

    /// Whether the loop has not been asked to stop through this handle:
    /// another name for `connected`.
    pub fn is_running(&self) -> (res: bool)
        ensures
            res == self.is_connected(),
    {
        self.connected()
    }
}

impl ShutdownReceiver {
    /// The end of the channel that this signal reads.
    pub closed spec fn receiver(&self) -> tokio::sync::watch::Receiver<bool> {
        self.rx
    }

    /// The reading end of a shutdown signal, for a channel made elsewhere.
    pub fn new(rx: tokio::sync::watch::Receiver<bool>) -> (signal: Self)
        ensures
            signal.receiver() == rx,
    {
        ShutdownReceiver { rx }
    }

    /// Whether a stop has been requested, as far as this end has seen.
    pub fn stop_requested(&self) -> bool {
        watch_current(&self.rx)
    }

    /// Gives the channel's end back, for a loop that waits on it.
    pub fn into_inner(self) -> (rx: tokio::sync::watch::Receiver<bool>)
        ensures
            rx == self.receiver(),
    {
        self.rx
    }
}

/// A new shutdown signal: the handle that requests the stop, and the end
/// that the loop reads.
pub fn make_shutdown_signal() -> (ends: (LuaConnection, ShutdownReceiver))
    ensures
        ends.0.is_connected(),
{
    let (tx, rx) = watch_channel(NOT_REQUESTED);
    (LuaConnection::new(tx), ShutdownReceiver { rx })
}

/// Idempotent stop. Whatever the first call met, the second call answers
/// `AlreadyStopped` and leaves the handle as the first call left it:
/// stopped.
pub proof fn lemma_stop_idempotent(
    before: LuaConnection,
    once: LuaConnection,
    twice: LuaConnection,
    first: StopOutcome,
    second: StopOutcome,
)
    requires
        stop_relation(before, once, first),
        stop_relation(once, twice, second),
    ensures
        !once.is_connected(),
        twice == once,
        second == StopOutcome::AlreadyStopped,
{
}

} // verus!
