//! Windows and the webviews in them: what a round of the native loop means
//! for a script, and how a configuration is read.

use vstd::prelude::*;
use vstd::string::StringExecFns;
use crate::webview::LoopEvent;

verus! {

/// What a round of the native loop tells the script of a window.
#[derive(Debug, Clone, Copy, PartialEq, Eq, Structural)]
pub enum LuaWindowEvent {
    Nothing,
    Redraw,
    Exit,
}

/// What a native event tells a script, if it tells anything.
pub open spec fn event_of(event: LoopEvent) -> Option<LuaWindowEvent> {
    match event {
        LoopEvent::CloseRequested => Some(LuaWindowEvent::Exit),
        LoopEvent::RedrawRequested => Some(LuaWindowEvent::Redraw),
        _ => None,
    }
}

/// What the first telling event of a round tells, from place `from` on.
pub open spec fn first_event_from(events: Seq<LoopEvent>, from: int) -> LuaWindowEvent
    decreases events.len() - from,
{
    if from < 0 || from >= events.len() {
        LuaWindowEvent::Nothing
    } else {
        match event_of(events[from]) {
            Some(told) => told,
            None => first_event_from(events, from + 1),
        }
    }
}

/// What a round of the native loop tells the script of a window that polls
/// for events: the first request to close or to redraw, and nothing if
/// there was none.
pub fn first_event(events: &Vec<LoopEvent>) -> (res: LuaWindowEvent)
    ensures
        res == first_event_from(events@, 0),
{
    let mut i: usize = 0;
    while i < events.len()
        invariant
            i <= events@.len(),
            first_event_from(events@, i as int) == first_event_from(events@, 0),
        decreases events@.len() - i,
    {
        match events[i] {
            LoopEvent::CloseRequested => {
                return LuaWindowEvent::Exit;
            },
            LoopEvent::RedrawRequested => {
                return LuaWindowEvent::Redraw;
            },
            _ => {},
        }
        i += 1;
    }
    LuaWindowEvent::Nothing
}

/// Whether a round holds a request to close the window `own`.
pub open spec fn close_requested(events: Seq<(u64, LoopEvent)>, own: u64) -> bool {
    exists|i: int| 0 <= i < events.len() && #[trigger] events[i] == (own, LoopEvent::CloseRequested)
}

/// What a round of the native loop tells the script of the window `own`,
/// from the events of the round with the window of each: that it is to
/// leave if the window was asked to close, and nothing otherwise.
pub fn own_event(events: &Vec<(u64, LoopEvent)>, own: u64) -> (res: LuaWindowEvent)
    ensures
        res == (if close_requested(events@, own) {
            LuaWindowEvent::Exit
        } else {
            LuaWindowEvent::Nothing
        }),
{
    let mut i: usize = 0;
    while i < events.len()
        invariant
            i <= events@.len(),
            forall|k: int| 0 <= k < i ==> events@[k] != (own, LoopEvent::CloseRequested),
        decreases events@.len() - i,
    {
        if events[i].0 == own && matches!(events[i].1, LoopEvent::CloseRequested) {
            return LuaWindowEvent::Exit;
        }
        i += 1;
    }
    LuaWindowEvent::Nothing
}

/// The window that was last asked to close in a round, among the first
/// `upto` events.
pub open spec fn last_closed(events: Seq<(u64, LoopEvent)>, upto: int) -> Option<u64>
    decreases upto,
{
    if upto <= 0 || upto > events.len() {
        None
    } else if events[upto - 1].1 == LoopEvent::CloseRequested {
        Some(events[upto - 1].0)
    } else {
        last_closed(events, upto - 1)
    }
}

/// What a round of the native loop tells a script that watches all
/// windows: the window that was last asked to close, with `Exit`, or no
/// window and `Nothing`.
pub fn any_event(events: &Vec<(u64, LoopEvent)>) -> (res: (Option<u64>, LuaWindowEvent))
    ensures
        res.0 == last_closed(events@, events@.len() as int),
        res.1 == (if res.0 is Some {
            LuaWindowEvent::Exit
        } else {
            LuaWindowEvent::Nothing
        }),
{
    let mut i: usize = events.len();
    while i > 0
        invariant
            i <= events@.len(),
            last_closed(events@, i as int) == last_closed(events@, events@.len() as int),
        decreases i,
    {
        if matches!(events[i - 1].1, LoopEvent::CloseRequested) {
            return (Some(events[i - 1].0), LuaWindowEvent::Exit);
        }
        i -= 1;
    }
    (None, LuaWindowEvent::Nothing)
}

/// How a window is set up.
#[derive(Debug, PartialEq, Eq)]
pub struct LuaWindowConfig {
    pub title: String,
    /// Width and height in pixels, if the script asked for a size.
    pub size: Option<(u32, u32)>,
}

/// The title of a window for which the script named none.
pub open spec fn default_title(with_webview: bool) -> Seq<char> {
    if with_webview {
        "Lune WebView"@
    } else {
        "Lune"@
    }
}

/// The title of a window: the one that the script named, or the default.
pub fn window_title(title: Option<String>, with_webview: bool) -> (res: String)
    ensures
        res@ == (match title {
            Some(named) => named@,
            None => default_title(with_webview),
        }),
{
    match title {
        Some(named) => named,
        None => if with_webview {
            "Lune WebView".to_owned()
        } else {
            "Lune".to_owned()
        },
    }
}

impl LuaWindowConfig {
    /// The configuration of a window that holds a webview.
    pub fn from_fields(title: Option<String>, size: Option<(u32, u32)>) -> (config: Self)
        ensures
            config.title@ == (match title {
                Some(named) => named@,
                None => default_title(true),
            }),
            config.size == size,
    {
        LuaWindowConfig { title: window_title(title, true), size }
    }
}

/// How a webview is set up. The handler of a custom protocol is a script
/// function, kept here as the number under which the host finds it.
#[derive(Debug, PartialEq, Eq)]
pub struct LuaWebViewConfig {
    pub init_script: Option<String>,
    pub html: Option<String>,
    pub url: Option<String>,
    pub headers: Vec<(String, Vec<u8>)>,
    pub custom_protocol_name: Option<String>,
    pub custom_protocol_handler: Option<u64>,
}

/// What a webview shows first.
#[derive(Debug, PartialEq, Eq)]
pub enum WebViewContent {
    Html(String),
    Url(String),
    Blank,
}

/// A custom protocol: its name and the number of its handler.
#[derive(Debug, PartialEq, Eq)]
pub struct CustomProtocol {
    pub name: String,
    pub handler: u64,
}

/// Why a configuration is refused.
#[derive(Debug, Clone, Copy, PartialEq, Eq, Structural)]
pub enum ConfigError {
    /// Of the name and the handler of a custom protocol only one is there.
    IncompleteCustomProtocol,
}

/// The text for a custom protocol of which only one half is there.
pub open spec fn incomplete_protocol_text() -> Seq<char> {
    "config for custom_protocol is incomplete, both custom_protocol_name and custom_protocol_handler must be present"@
}

impl ConfigError {
    /// The error as the text that scripts are shown.
    pub fn message(&self) -> (text: String)
        ensures
            text@ == incomplete_protocol_text(),
    {
        "config for custom_protocol is incomplete, both custom_protocol_name and custom_protocol_handler must be present".to_owned()
    }
}

impl LuaWebViewConfig {
    /// What the webview shows first: the markup if the configuration holds
    /// any, else the page at the address if it holds one, else nothing.
    pub fn content(&self) -> (res: WebViewContent)
        ensures
            match (self.html, self.url) {
                (Some(html), _) => res is Html && res->Html_0@ == html@,
                (None, Some(url)) => res is Url && res->Url_0@ == url@,
                (None, None) => res is Blank,
            },
    {
        match &self.html {
            Some(html) => WebViewContent::Html(html.clone()),
            None => match &self.url {
                Some(url) => WebViewContent::Url(url.clone()),
                None => WebViewContent::Blank,
            },
        }
    }

    /// The custom protocol that the configuration asks for, if it asks for
    /// one. A name without a handler, or a handler without a name, is
    /// refused.
    pub fn custom_protocol(&self) -> (res: Result<Option<CustomProtocol>, ConfigError>)
        ensures
            match (self.custom_protocol_name, self.custom_protocol_handler) {
                (Some(name), Some(handler)) => res is Ok && res->Ok_0 is Some
                    && res->Ok_0->Some_0.name@ == name@ && res->Ok_0->Some_0.handler == handler,
                (None, None) => res is Ok && res->Ok_0 is None,
                _ => res == Err::<Option<CustomProtocol>, ConfigError>(
                    ConfigError::IncompleteCustomProtocol,
                ),
            },
    {
        match (&self.custom_protocol_name, self.custom_protocol_handler) {
            (Some(name), Some(handler)) => Ok(
                Some(CustomProtocol { name: name.clone(), handler }),
            ),
            (None, None) => Ok(None),
            _ => Err(ConfigError::IncompleteCustomProtocol),
        }
    }
}

/// A value of a script that is not of the kind that the host needs.
#[derive(Debug, PartialEq, Eq)]
pub struct ConversionError {
    /// The kind of the value, as scripts name it.
    pub from: String,
    /// What the host needed.
    pub to: String,
    pub message: Option<String>,
}

/// The text for a webview configuration that is not a table.
pub open spec fn invalid_config_text(kind: Seq<char>) -> Seq<char> {
    "Invalid webview config - expected table, got "@ + kind
}

/// The error for a value that should have been the configuration of a
/// webview window and is no table.
pub fn invalid_webview_config(kind: &str) -> (error: ConversionError)
    ensures
        error.from@ == kind@,
        error.to@ == "WebviewConfig"@,
        error.message is Some,
        error.message->Some_0@ == invalid_config_text(kind@),
{
    let mut message = "Invalid webview config - expected table, got ".to_owned();
    message.append(kind);
    ConversionError {
        from: kind.to_owned(),
        to: "WebviewConfig".to_owned(),
        message: Some(message),
    }
}

/// The error for a value of the wrong kind where the host needed `to`.
pub fn wrong_kind(kind: &str, to: &str) -> (error: ConversionError)
    ensures
        error.from@ == kind@,
        error.to@ == to@,
        error.message is None,
{
    ConversionError { from: kind.to_owned(), to: to.to_owned(), message: None }
}

} // verus!
