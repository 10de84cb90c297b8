//! Commands sent to a webview window, the events it reports, and what its
//! event loop does with each.

use vstd::prelude::*;
use crate::text::same_text;

verus! {

/// What a script asks of a webview window.
#[derive(Debug, Clone)]
pub enum WebviewCommand {
    CloseWindow,
    OpenDevtools,
    CloseDevtools,
    ExecuteJavascript(String),
    LoadUrl(String),
}

/// What a webview window reports back.
#[derive(Debug)]
pub enum WebviewEvent {
    Init,
    ClosedWindow,
    ExecutedJavascript(String),
}

/// How a webview window is set up.
pub struct BuilderConfig {
    pub url: Option<String>,
}

/// A command, with each text as its characters.
pub enum CommandView {
    CloseWindow,
    OpenDevtools,
    CloseDevtools,
    ExecuteJavascript(Seq<char>),
    LoadUrl(Seq<char>),
}

impl View for WebviewCommand {
    type V = CommandView;

    open spec fn view(&self) -> CommandView {
        match *self {
            WebviewCommand::CloseWindow => CommandView::CloseWindow,
            WebviewCommand::OpenDevtools => CommandView::OpenDevtools,
            WebviewCommand::CloseDevtools => CommandView::CloseDevtools,
            WebviewCommand::ExecuteJavascript(script) => CommandView::ExecuteJavascript(script@),
            WebviewCommand::LoadUrl(url) => CommandView::LoadUrl(url@),
        }
    }
}

/// Whether a text starts with another.
pub open spec fn has_prefix(text: Seq<char>, prefix: Seq<char>) -> bool {
    text.len() >= prefix.len() && text.take(prefix.len() as int) == prefix
}

/// A text with every occurrence of a pattern taken out, found from the
/// left, each one starting where the one before it ended.
pub open spec fn without(text: Seq<char>, pattern: Seq<char>) -> Seq<char>
    decreases text.len(),
{
    if pattern.len() == 0 || text.len() < pattern.len() {
        text
    } else if has_prefix(text, pattern) {
        without(text.skip(pattern.len() as int), pattern)
    } else {
        seq![text[0]] + without(text.skip(1), pattern)
    }
}

/// Calls `str::starts_with`, which tells whether the pattern matches a
/// prefix of the text.
#[verifier::external_body]
fn starts_with(text: &str, prefix: &str) -> (res: bool)
    ensures
        res == has_prefix(text@, prefix@),
{
    text.starts_with(prefix)
}

/// Calls `str::replace` with the empty string as the replacement, which
/// takes every match of the pattern out of the text.
#[verifier::external_body]
fn remove_all(text: &str, pattern: &str) -> (res: String)
    ensures
        res@ == without(text@, pattern@),
{
    text.replace(pattern, "")
}

/// The command that a line of the text protocol stands for, if it stands
/// for one: the three commands without an argument by their names, and
/// `^LoadUrl:` followed by the address.
pub open spec fn command_of_line(line: Seq<char>) -> Option<CommandView> {
    if line == "^CloseWindow"@ {
        Some(CommandView::CloseWindow)
    } else if line == "^OpenDevtools"@ {
        Some(CommandView::OpenDevtools)
    } else if line == "^CloseDevtools"@ {
        Some(CommandView::CloseDevtools)
    } else if has_prefix(line, "^LoadUrl:"@) {
        Some(CommandView::LoadUrl(without(line, "^LoadUrl:"@)))
    } else {
        None
    }
}

/// The text that a script is shown when a command could not be sent.
pub open spec fn failure_text(command: CommandView) -> Seq<char> {
    match command {
        CommandView::ExecuteJavascript(_) => "Failed to send javascript code to webview"@,
        _ => "Failed to send exit message to webview"@,
    }
}

impl WebviewCommand {
    /// Reads a line of the text protocol.
    pub fn from_line(line: &str) -> (command: Option<WebviewCommand>)
        ensures
            match command_of_line(line@) {
                Some(view) => command is Some && command->Some_0@ == view,
                None => command is None,
            },
    {
        if same_text(line, "^CloseWindow") {
            Some(WebviewCommand::CloseWindow)
        } else if same_text(line, "^OpenDevtools") {
            Some(WebviewCommand::OpenDevtools)
        } else if same_text(line, "^CloseDevtools") {
            Some(WebviewCommand::CloseDevtools)
        } else if starts_with(line, "^LoadUrl:") {
            Some(WebviewCommand::LoadUrl(remove_all(line, "^LoadUrl:")))
        } else {
            None
        }
    }

    /// The text that a script is shown when this command could not be sent.
    pub fn failure_message(&self) -> (text: String)
        ensures
            text@ == failure_text(self@),
    {
        match self {
            WebviewCommand::ExecuteJavascript(_) => "Failed to send javascript code to webview".to_owned(),
            _ => "Failed to send exit message to webview".to_owned(),
        }
    }
}

/// What a script waits for from a webview window.
#[derive(Debug, Clone, Copy, PartialEq, Eq, Structural)]
pub enum Listener {
    /// That the window closed.
    Exit,
    /// That a piece of javascript was run.
    ExecutedJavascript,
}

impl WebviewEvent {
    /// Whether this event is what the listener waits for. A listener is
    /// called once, for the first such event, and then leaves.
    pub fn wakes(&self, listener: Listener) -> (res: bool)
        ensures
            res == match listener {
                Listener::Exit => *self is ClosedWindow,
                Listener::ExecutedJavascript => *self is ExecutedJavascript,
            },
    {
        match listener {
            Listener::Exit => matches!(self, WebviewEvent::ClosedWindow),
            Listener::ExecutedJavascript => matches!(self, WebviewEvent::ExecutedJavascript(_)),
        }
    }

    /// What the javascript gave back, for the event that it was run.
    pub fn script_result(&self) -> (res: Option<String>)
        ensures
            match *self {
                WebviewEvent::ExecutedJavascript(text) => res is Some && res->Some_0@ == text@,
                _ => res is None,
            },
    {
        match self {
            WebviewEvent::ExecutedJavascript(text) => Some(text.clone()),
            _ => None,
        }
    }
}

/// What became of a command that was sent.
#[derive(Debug, Clone, Copy, PartialEq, Eq, Structural)]
pub enum SendOutcome {
    /// A window was there to take it.
    Sent,
    /// No window listens any more. That is no error: the command is dropped.
    ChannelClosed,
}

/// What a send answers for what the channel said: whether a receiver was
/// there. A command without a receiver is dropped, and the script goes on.
pub fn send_outcome(taken: bool) -> (outcome: SendOutcome)
    ensures
        outcome == (if taken {
            SendOutcome::Sent
        } else {
            SendOutcome::ChannelClosed
        }),
{
    if taken {
        SendOutcome::Sent
    } else {
        SendOutcome::ChannelClosed
    }
}

/// What a listener does after it woke up.
#[derive(Debug, PartialEq, Eq)]
pub enum ListenerAction {
    /// The event is not the one: wait for the next.
    Wait,
    /// Call the callback, with what the javascript gave back if the event
    /// carries that, and leave.
    Fire(Option<String>),
    /// The window is gone and no event will come: leave without a call.
    Leave,
}

/// What a listener does after it woke up, with each text as its characters.
pub enum ListenerActionView {
    Wait,
    Fire(Option<Seq<char>>),
    Leave,
}

/// What a listener does after it woke up. `event` is the new event, or
/// nothing where the sender of events is gone.
pub open spec fn listener_action(listener: Listener, event: Option<WebviewEvent>) -> ListenerActionView {
    match event {
        None => ListenerActionView::Leave,
        Some(WebviewEvent::ClosedWindow) => if listener == Listener::Exit {
            ListenerActionView::Fire(None)
        } else {
            ListenerActionView::Wait
        },
        Some(WebviewEvent::ExecutedJavascript(text)) => if listener
            == Listener::ExecutedJavascript {
            ListenerActionView::Fire(Some(text@))
        } else {
            ListenerActionView::Wait
        },
        Some(WebviewEvent::Init) => ListenerActionView::Wait,
    }
}

/// Decides what a listener does after it woke up. `event` is the new
/// event, or nothing where the sender of events is gone.
pub fn listener_step(listener: Listener, event: Option<&WebviewEvent>) -> (action: ListenerAction)
    ensures
        match listener_action(
            listener,
            match event {
                Some(e) => Some(*e),
                None => None,
            },
        ) {
            ListenerActionView::Wait => action is Wait,
            ListenerActionView::Leave => action is Leave,
            ListenerActionView::Fire(None) => action is Fire && action->Fire_0 is None,
            ListenerActionView::Fire(Some(text)) => action is Fire && action->Fire_0 is Some
                && action->Fire_0->Some_0@ == text,
        },
{
    match event {
        None => ListenerAction::Leave,
        Some(e) => if e.wakes(listener) {
            ListenerAction::Fire(e.script_result())
        } else {
            ListenerAction::Wait
        },
    }
}

/// What the native loop of a window reports, as far as the host looks at it.
#[derive(Debug, Clone, Copy, PartialEq, Eq, Structural)]
pub enum LoopEvent {
    CloseRequested,
    AboutToWait,
    RedrawRequested,
    Other,
}

/// How commands reach the loop of a webview window.
#[derive(Debug, Clone, Copy, PartialEq, Eq, Structural)]
pub enum Protocol {
    /// As queued commands, looked for at every event.
    Commands,
    /// As the latest line of text, looked for when the window redraws.
    Lines,
}

/// What the loop of a webview window does at an event.
#[derive(Debug, Clone, Copy, PartialEq, Eq, Structural)]
pub struct LoopReaction {
    /// Look for a command and carry it out.
    pub poll_commands: bool,
    /// Leave the loop.
    pub exit: bool,
    /// Report that the window closed.
    pub notify_closed: bool,
    /// Ask the window to redraw.
    pub request_redraw: bool,
}

/// What the loop of a webview window does at an event.
pub open spec fn reaction(event: LoopEvent, protocol: Protocol) -> LoopReaction {
    LoopReaction {
        poll_commands: protocol == Protocol::Commands || event == LoopEvent::RedrawRequested,
        exit: event == LoopEvent::CloseRequested,
        notify_closed: event == LoopEvent::CloseRequested,
        request_redraw: event == LoopEvent::AboutToWait,
    }
}

/// Decides what the loop of a webview window does at an event.
pub fn react(event: LoopEvent, protocol: Protocol) -> (res: LoopReaction)
    ensures
        res == reaction(event, protocol),
{
    let closing = matches!(event, LoopEvent::CloseRequested);
    LoopReaction {
        poll_commands: matches!(protocol, Protocol::Commands) || matches!(
            event,
            LoopEvent::RedrawRequested
        ),
        exit: closing,
        notify_closed: closing,
        request_redraw: matches!(event, LoopEvent::AboutToWait),
    }
}

/// Whether carrying out a command ends the loop and reports the window
/// closed: it does for the command to close the window, and for no other.
pub fn command_closes(command: &WebviewCommand) -> (res: bool)
    ensures
        res == (*command is CloseWindow),
{
    matches!(command, WebviewCommand::CloseWindow)
}

} // verus!
