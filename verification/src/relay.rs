//! Decisions of the loops that relay messages of the native event loop to
//! scripts, and of the handler that sorts what a webview page posts.

use vstd::prelude::*;
use vstd::string::StringExecFns;
use crate::event::{EventLoopHandle, EventLoopMessage, MessageView};
use crate::input::{posted, LuaWebViewMessage, MessageError};
use crate::scheduler::value::Value;

verus! {

/// Why a relay loop woke up.
#[derive(Debug, Clone, Copy, PartialEq, Eq, Structural)]
pub enum RelayWake {
    /// A new message is there.
    Message,
    /// Messages were dropped because the loop fell behind; none is there.
    Lagged,
    /// The sender of messages is gone: no message will ever come.
    SourceGone,
    /// The stop was requested through the shutdown signal.
    StopRequested,
    /// The sending end of the shutdown signal is gone without a request.
    SignalGone,
}

/// What a relay loop does after it woke up.
#[derive(Debug, Clone, Copy, PartialEq, Eq, Structural)]
pub enum RelayAction {
    /// Leave the loop.
    Stop,
    /// Enqueue nothing and wait for the next wake.
    Skip,
    /// Redraw the window and enqueue the callback with the new message.
    Deliver,
    /// Enqueue nothing, and from now on wait for messages alone: the
    /// shutdown signal can never ask for a stop any more.
    Unwatch,
}

/// What a relay loop does. It leaves on a stop request and when no message
/// can come any more. It enqueues the callback for a new message only, and
/// only if the message names no window or the loop's own. A signal whose
/// sender is gone is no request and no message: the loop stops listening
/// to it.
pub open spec fn relay_action(wake: RelayWake, from: Option<u64>, own: u64) -> RelayAction {
    match wake {
        RelayWake::StopRequested => RelayAction::Stop,
        RelayWake::SourceGone => RelayAction::Stop,
        RelayWake::SignalGone => RelayAction::Unwatch,
        RelayWake::Lagged => RelayAction::Skip,
        RelayWake::Message => if from is Some && from->Some_0 != own {
            RelayAction::Skip
        } else {
            RelayAction::Deliver
        },
    }
}

/// Decides what a relay loop for the window `own` does after it woke up.
/// `from` is the window that the message names, for a wake by a message.
pub fn relay_step(wake: RelayWake, from: Option<u64>, own: u64) -> (action: RelayAction)
    ensures
        action == relay_action(wake, from, own),
{
    match wake {
        RelayWake::StopRequested => RelayAction::Stop,
        RelayWake::SourceGone => RelayAction::Stop,
        RelayWake::SignalGone => RelayAction::Unwatch,
        RelayWake::Lagged => RelayAction::Skip,
        RelayWake::Message => match from {
            Some(window) => if window != own {
                RelayAction::Skip
            } else {
                RelayAction::Deliver
            },
            None => RelayAction::Deliver,
        },
    }
}

/// A relay enqueues on new work only: whatever the windows are, the
/// callback is enqueued for no wake but a new message, and a stop request
/// always ends the loop.
pub proof fn lemma_relay_delivers_new_messages_only(wake: RelayWake, from: Option<u64>, own: u64)
    ensures
        relay_action(wake, from, own) == RelayAction::Deliver ==> wake == RelayWake::Message,
        wake == RelayWake::StopRequested ==> relay_action(wake, from, own) == RelayAction::Stop,
        wake == RelayWake::SignalGone ==> relay_action(wake, from, own) == RelayAction::Unwatch,
{
}

/// Whether a relay loop leaves after a call of the callback: it does when
/// the callback handed the loop's handle back.
pub fn callback_breaks(returned: Option<EventLoopHandle>) -> (res: bool)
    ensures
        res == (returned is Some),
{
    match returned {
        Some(EventLoopHandle::Break) => true,
        None => false,
    }
}

/// Whether a polling loop leaves after a call of the callback: it does
/// when the callback returned the boolean `true`, and for no other value.
pub fn callback_asks_stop(returned: &Value) -> (res: bool)
    ensures
        res == (*returned == Value::Boolean(true)),
{
    match returned {
        Value::Boolean(stop) => *stop,
        _ => false,
    }
}

/// Whether the loop that pumps native events goes on: it does as long as
/// someone listens to what it passes on.
pub fn pump_continues(listeners: usize) -> (res: bool)
    ensures
        res == (listeners > 0),
{
    listeners > 0
}

/// Where what a webview page posted goes.
#[derive(Debug, PartialEq, Eq)]
pub enum IpcRoute {
    /// It is a message of the page's script library: to the event loop.
    Event(EventLoopMessage),
    /// It is the page's own message: to the scripts that listen.
    Forward,
    /// It is the page's own message and nobody listens.
    Drop,
}

/// What the sorting of a posted message answers.
pub enum IpcRouteView {
    Event(MessageView),
    Forward,
    Drop,
}

/// Where a posted message goes. `parsed` is the message read as one of the
/// script library's, if it could be read so; `listeners` is the number of
/// scripts that listen to the page's own messages.
pub open spec fn ipc_route(parsed: Option<LuaWebViewMessage>, listeners: usize) -> Result<
    IpcRouteView,
    MessageError,
> {
    match parsed {
        Some(message) => match posted(message) {
            Ok(Some(view)) => Ok(IpcRouteView::Event(view)),
            Ok(None) => Err(MessageError::Empty),
            Err(e) => Err(e),
        },
        None => if listeners > 0 {
            Ok(IpcRouteView::Forward)
        } else {
            Ok(IpcRouteView::Drop)
        },
    }
}

/// Sorts what a webview page posted.
pub fn route_ipc(parsed: Option<LuaWebViewMessage>, listeners: usize) -> (res: Result<
    IpcRoute,
    MessageError,
>)
    ensures
        match ipc_route(parsed, listeners) {
            Ok(IpcRouteView::Event(view)) => res is Ok && res->Ok_0 is Event
                && res->Ok_0->Event_0@ == view,
            Ok(IpcRouteView::Forward) => res is Ok && res->Ok_0 is Forward,
            Ok(IpcRouteView::Drop) => res is Ok && res->Ok_0 is Drop,
            Err(e) => res is Err && res->Err_0 == e,
        },
{
    match parsed {
        Some(message) => match message.into_eventloop_message() {
            Ok(Some(event)) => Ok(IpcRoute::Event(event)),
            Ok(None) => Err(MessageError::Empty),
            Err(e) => Err(e),
        },
        None => if listeners > 0 {
            Ok(IpcRoute::Forward)
        } else {
            Ok(IpcRoute::Drop)
        },
    }
}

/// Whether the native event loop has been started. Each runtime keeps its
/// own record.
#[derive(Debug, Default, Clone, Copy, PartialEq, Eq, Structural)]
pub struct LoopStart {
    pub started: bool,
}

/// Why a start of the loop is refused.
#[derive(Debug, Clone, Copy, PartialEq, Eq, Structural)]
pub enum StartError {
    /// The loop was started before.
    StartedTwice,
}

/// The message for a call that came before the loop was started.
pub open spec fn before_run_text(name: Seq<char>) -> Seq<char> {
    "please make sure to call "@ + name + " after calling wry.run()"@
}

/// The message for a second start of the loop.
pub open spec fn started_twice_text() -> Seq<char> {
    "wry.run() got called more than once\nthe first call to event_loop automatically calls this function."@
}

impl LoopStart {
    /// The record of a runtime whose loop has not been started.
    pub fn new() -> (record: Self)
        ensures
            !record.started,
    {
        LoopStart { started: false }
    }

    /// Marks the loop as started. A second start is refused and changes
    /// nothing.
    pub fn start(&mut self) -> (res: Result<(), StartError>)
        ensures
            final(self).started,
            old(self).started ==> res == Err::<(), StartError>(StartError::StartedTwice),
            !old(self).started ==> res == Ok::<(), StartError>(()),
    {
        if self.started {
            Err(StartError::StartedTwice)
        } else {
            self.started = true;
            Ok(())
        }
    }

    /// Whether a caller that needs the loop has to start it first.
    pub fn needs_run(&self) -> (res: bool)
        ensures
            res == !self.started,
    {
        !self.started
    }

    /// The error for the call `name` if it comes before the loop was
    /// started, and nothing if it comes after.
    pub fn error_if_before_run(&self, name: &str) -> (res: Option<String>)
        ensures
            self.started ==> res is None,
            !self.started ==> res is Some && res->Some_0@ == before_run_text(name@),
    {
        if !self.started {
            let mut text = "please make sure to call ".to_owned();
            text.append(name);
            text.append(" after calling wry.run()");
            Some(text)
        } else {
            None
        }
    }
}

impl StartError {
    /// The error as the text that scripts are shown.
    pub fn message(&self) -> (text: String)
        ensures
            text@ == started_twice_text(),
    {
        "wry.run() got called more than once\nthe first call to event_loop automatically calls this function.".to_owned()
    }
}

} // verus!
