//! From native input to messages: what each window event and each message
//! posted by a webview page becomes, and which message of one round of
//! the native loop is passed on.

use vstd::prelude::*;
use crate::event::{EventLoopMessage, LuaDimension, MessageView};

verus! {

/// A message that the script library of a webview page posts for the host.
#[derive(Debug)]
pub struct LuaWebViewMessage {
    pub __internal: bool,
    pub position: Option<LuaDimension>,
    pub mousebutton: Option<String>,
    pub keycode: Option<String>,
    pub pressed: Option<bool>,
}

/// Why a posted message cannot be turned into a message of the event loop.
#[derive(Debug, Clone, Copy, PartialEq, Eq, Structural)]
pub enum MessageError {
    /// The message names a button or a key and does not say whether it is down.
    MissingPressed,
    /// The message names neither a position nor a button nor a key.
    Empty,
}

/// What a posted message becomes: a position wins over a button, a button
/// over a key; a message with none of them becomes nothing.
pub open spec fn posted(message: LuaWebViewMessage) -> Result<Option<MessageView>, MessageError> {
    if message.position is Some {
        Ok(Some(MessageView::CursorMoved(message.position->Some_0)))
    } else if message.mousebutton is Some {
        if message.pressed is Some {
            Ok(
                Some(
                    MessageView::MouseButton(
                        message.mousebutton->Some_0@,
                        message.pressed->Some_0,
                    ),
                ),
            )
        } else {
            Err(MessageError::MissingPressed)
        }
    } else if message.keycode is Some {
        if message.pressed is Some {
            Ok(Some(MessageView::KeyCode(message.keycode->Some_0@, message.pressed->Some_0)))
        } else {
            Err(MessageError::MissingPressed)
        }
    } else {
        Ok(None)
    }
}

impl LuaWebViewMessage {
    /// Turns the posted message into a message of the event loop.
    pub fn into_eventloop_message(self) -> (res: Result<Option<EventLoopMessage>, MessageError>)
        ensures
            match posted(self) {
                Ok(Some(view)) => res is Ok && res->Ok_0 is Some && res->Ok_0->Some_0@ == view,
                Ok(None) => res is Ok && res->Ok_0 is None,
                Err(e) => res == Err::<Option<EventLoopMessage>, MessageError>(e),
            },
    {
        if let Some(position) = self.position {
            Ok(Some(EventLoopMessage::CursorMoved(position)))
        } else if let Some(mousebutton) = self.mousebutton {
            match self.pressed {
                Some(pressed) => Ok(Some(EventLoopMessage::MouseButton(mousebutton, pressed))),
                None => Err(MessageError::MissingPressed),
            }
        } else if let Some(keycode) = self.keycode {
            match self.pressed {
                Some(pressed) => Ok(Some(EventLoopMessage::KeyCode(keycode, pressed))),
                None => Err(MessageError::MissingPressed),
            }
        } else {
            Ok(None)
        }
    }
}

/// The windowing toolkit that an event came from. The two name buttons
/// and keys differently.
#[derive(Debug, Clone, Copy, PartialEq, Eq, Structural)]
pub enum Toolkit {
    /// Reports five mouse buttons and names keys by the text they type.
    Winit,
    /// Reports three mouse buttons, cursor movement and posted messages,
    /// and names keys by their place on the keyboard.
    Tao,
}

/// A mouse button.
#[derive(Debug, Clone, Copy, PartialEq, Eq, Structural)]
pub enum MouseButton {
    Left,
    Right,
    Middle,
    Back,
    Forward,
    Other,
}

/// Whether a button or key went down or up.
#[derive(Debug, Clone, Copy, PartialEq, Eq, Structural)]
pub enum ElementState {
    Pressed,
    Released,
}

/// The keys that have a name of their own.
#[derive(Debug, Clone, Copy, PartialEq, Eq, Structural)]
pub enum NamedKey {
    Escape,
    Tab,
    Enter,
    Space,
    Other,
}

/// A key going down or up.
#[derive(Debug)]
pub struct KeyInput {
    /// The text that the key types, if it types any.
    pub text: Option<String>,
    /// The name of the key, if it is one of the named ones.
    pub named: NamedKey,
    /// The place of the key on the keyboard, as the toolkit writes it.
    pub physical: String,
    /// Whether the event comes from holding the key down.
    pub repeat: bool,
    pub state: ElementState,
}

/// An event of a native window, as far as the host looks at it.
#[derive(Debug)]
pub enum WindowInput {
    CloseRequested,
    MouseInput(ElementState, MouseButton),
    KeyboardInput(KeyInput),
    CursorMoved(LuaDimension),
    /// A message that a webview page posted.
    UserEvent(EventLoopMessage),
    Other,
}

/// The name under which scripts see a mouse button, if they see it at all.
pub open spec fn button_name(button: MouseButton, toolkit: Toolkit) -> Option<Seq<char>> {
    match button {
        MouseButton::Left => Some("left"@),
        MouseButton::Right => Some("right"@),
        MouseButton::Middle => Some("middle"@),
        MouseButton::Back => if toolkit == Toolkit::Winit {
            Some("back"@)
        } else {
            None
        },
        MouseButton::Forward => if toolkit == Toolkit::Winit {
            Some("forward"@)
        } else {
            None
        },
        MouseButton::Other => None,
    }
}

/// Whether a key counts as down: it is held, or it went down.
pub open spec fn key_down(repeat: bool, state: ElementState) -> bool {
    repeat || state == ElementState::Pressed
}

/// The name under which scripts see a key, if they see it at all.
pub open spec fn key_name(key: KeyInput, toolkit: Toolkit) -> Option<Seq<char>> {
    match toolkit {
        Toolkit::Tao => Some(key.physical@),
        Toolkit::Winit => if key.text is None {
            None
        } else {
            match key.named {
                NamedKey::Escape => Some("esc"@),
                NamedKey::Tab => Some("tab"@),
                NamedKey::Enter => Some("enter"@),
                NamedKey::Space => Some("space"@),
                NamedKey::Other => Some(key.text->Some_0@),
            }
        },
    }
}

/// The message that a native event becomes, if it becomes one.
pub open spec fn message_for(input: WindowInput, toolkit: Toolkit) -> Option<MessageView> {
    match input {
        WindowInput::CloseRequested => Some(MessageView::CloseRequested),
        WindowInput::MouseInput(state, button) => match button_name(button, toolkit) {
            Some(name) => Some(MessageView::MouseButton(name, state == ElementState::Pressed)),
            None => None,
        },
        WindowInput::KeyboardInput(key) => match key_name(key, toolkit) {
            Some(name) => Some(MessageView::KeyCode(name, key_down(key.repeat, key.state))),
            None => None,
        },
        WindowInput::CursorMoved(at) => if toolkit == Toolkit::Tao {
            Some(MessageView::CursorMoved(at))
        } else {
            None
        },
        WindowInput::UserEvent(message) => if toolkit == Toolkit::Tao {
            Some(message@)
        } else {
            None
        },
        WindowInput::Other => None,
    }
}

/// The name under which scripts see a mouse button.
pub fn mouse_button_name(button: MouseButton, toolkit: Toolkit) -> (name: Option<String>)
    ensures
        match button_name(button, toolkit) {
            Some(expected) => name is Some && name->Some_0@ == expected,
            None => name is None,
        },
{
    let winit = matches!(toolkit, Toolkit::Winit);
    match button {
        MouseButton::Left => Some("left".to_owned()),
        MouseButton::Right => Some("right".to_owned()),
        MouseButton::Middle => Some("middle".to_owned()),
        MouseButton::Back => if winit {
            Some("back".to_owned())
        } else {
            None
        },
        MouseButton::Forward => if winit {
            Some("forward".to_owned())
        } else {
            None
        },
        MouseButton::Other => None,
    }
}

/// Turns a native event into a message for scripts, if scripts are told
/// of it.
pub fn to_message(input: WindowInput, toolkit: Toolkit) -> (message: Option<EventLoopMessage>)
    ensures
        match message_for(input, toolkit) {
            Some(view) => message is Some && message->Some_0@ == view,
            None => message is None,
        },
{
    let tao = matches!(toolkit, Toolkit::Tao);
    match input {
        WindowInput::CloseRequested => Some(EventLoopMessage::CloseRequested),
        WindowInput::MouseInput(state, button) => {
            let pressed = matches!(state, ElementState::Pressed);
            match mouse_button_name(button, toolkit) {
                Some(name) => Some(EventLoopMessage::MouseButton(name, pressed)),
                None => None,
            }
        },
        WindowInput::KeyboardInput(key) => {
            let pressed = key.repeat || matches!(key.state, ElementState::Pressed);
            if tao {
                Some(EventLoopMessage::KeyCode(key.physical, pressed))
            } else {
                match key.text {
                    None => None,
                    Some(text) => {
                        let name = match key.named {
                            NamedKey::Escape => "esc".to_owned(),
                            NamedKey::Tab => "tab".to_owned(),
                            NamedKey::Enter => "enter".to_owned(),
                            NamedKey::Space => "space".to_owned(),
                            NamedKey::Other => text,
                        };
                        Some(EventLoopMessage::KeyCode(name, pressed))
                    },
                }
            }
        },
        WindowInput::CursorMoved(at) => if tao {
            Some(EventLoopMessage::CursorMoved(at))
        } else {
            None
        },
        WindowInput::UserEvent(message) => if tao {
            Some(message)
        } else {
            None
        },
        WindowInput::Other => None,
    }
}

/// What one round of the native loop passes on: the window and the message
/// of the last event that became a message, or no window and `Nothing`.
pub open spec fn last_message(events: Seq<(u64, WindowInput)>, toolkit: Toolkit) -> (
    Option<u64>,
    MessageView,
)
    decreases events.len(),
{
    if events.len() == 0 {
        (None, MessageView::Nothing)
    } else {
        match message_for(events.last().1, toolkit) {
            Some(view) => (Some(events.last().0), view),
            None => last_message(events.drop_last(), toolkit),
        }
    }
}

/// Picks what one round of the native loop passes on from the events of
/// the round, each with the number of its window: the last one wins.
pub fn pump_message(events: Vec<(u64, WindowInput)>, toolkit: Toolkit) -> (res: (
    Option<u64>,
    EventLoopMessage,
))
    ensures
        res.0 == last_message(events@, toolkit).0,
        res.1@ == last_message(events@, toolkit).1,
{
    let mut rest = events;
    while rest.len() > 0
        invariant
            last_message(rest@, toolkit) == last_message(events@, toolkit),
        decreases rest.len(),
    {
        let ghost before = rest@;
        let (window, input) = rest.pop().unwrap();
        assert(rest@ =~= before.drop_last());
        match to_message(input, toolkit) {
            Some(message) => {
                return (Some(window), message);
            },
            None => {},
        }
    }
    (None, EventLoopMessage::Nothing)
}

} // verus!
