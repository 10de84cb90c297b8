//! Messages of the window event loop: what a native event or a message
//! from a webview becomes before it is handed to a script.

use vstd::prelude::*;
use vstd::string::StringExecFns;

verus! {

/// A point or a size in a window, each coordinate kept as the bits of its
/// IEEE 754 double-precision form.
#[derive(Debug, Default, Clone, Copy, PartialEq, Eq, Structural)]
pub struct LuaDimension {
    pub x: u64,
    pub y: u64,
}

/// A colour with its opacity.
#[derive(Debug, Default, Clone, Copy, PartialEq, Eq, Structural)]
pub struct LuaRGBA {
    pub r: u8,
    pub g: u8,
    pub b: u8,
    pub a: u8,
}

/// What the event loop tells a script.
#[derive(Debug, Clone, PartialEq, Eq)]
pub enum EventLoopMessage {
    CloseRequested,
    /// A mouse button, by name, and whether it is down.
    MouseButton(String, bool),
    /// A key, by name, and whether it is down.
    KeyCode(String, bool),
    /// The cursor moved to this place.
    CursorMoved(LuaDimension),
    /// Nothing happened.
    Nothing,
}

/// What the loop that relays messages to a script does after a call of
/// the script's callback.
#[derive(Debug, Clone, Copy, PartialEq, Eq, Structural)]
pub enum EventLoopHandle {
    Break,
}

/// What a message says, with each name as its text.
pub enum MessageView {
    CloseRequested,
    MouseButton(Seq<char>, bool),
    KeyCode(Seq<char>, bool),
    CursorMoved(LuaDimension),
    Nothing,
}

impl View for EventLoopMessage {
    type V = MessageView;

    open spec fn view(&self) -> MessageView {
        match *self {
            EventLoopMessage::CloseRequested => MessageView::CloseRequested,
            EventLoopMessage::MouseButton(name, pressed) => MessageView::MouseButton(
                name@,
                pressed,
            ),
            EventLoopMessage::KeyCode(name, pressed) => MessageView::KeyCode(name@, pressed),
            EventLoopMessage::CursorMoved(at) => MessageView::CursorMoved(at),
            EventLoopMessage::Nothing => MessageView::Nothing,
        }
    }
}

/// `true` or `false`, as text.
pub open spec fn bool_text(b: bool) -> Seq<char> {
    if b {
        "true"@
    } else {
        "false"@
    }
}

/// The name of the kind of a message.
pub open spec fn kind_text(message: EventLoopMessage) -> Seq<char> {
    match message {
        EventLoopMessage::CloseRequested => "CloseRequested"@,
        EventLoopMessage::MouseButton(..) => "MouseButton"@,
        EventLoopMessage::KeyCode(..) => "KeyCode"@,
        EventLoopMessage::CursorMoved(..) => "CursorMoved"@,
        EventLoopMessage::Nothing => "None"@,
    }
}

/// Whether two messages are of the same kind, whatever they carry.
pub open spec fn same_kind(a: EventLoopMessage, b: EventLoopMessage) -> bool {
    match (a, b) {
        (EventLoopMessage::CloseRequested, EventLoopMessage::CloseRequested) => true,
        (EventLoopMessage::MouseButton(..), EventLoopMessage::MouseButton(..)) => true,
        (EventLoopMessage::KeyCode(..), EventLoopMessage::KeyCode(..)) => true,
        (EventLoopMessage::CursorMoved(..), EventLoopMessage::CursorMoved(..)) => true,
        (EventLoopMessage::Nothing, EventLoopMessage::Nothing) => true,
        _ => false,
    }
}

/// The text `name(value:pressed)`.
pub open spec fn labelled_text(name: Seq<char>, value: Seq<char>, pressed: bool) -> Seq<char> {
    name + "("@ + value + ":"@ + bool_text(pressed) + ")"@
}

/// A message as text, for every kind that carries no number.
pub open spec fn message_text(message: EventLoopMessage) -> Option<Seq<char>> {
    match message {
        EventLoopMessage::CloseRequested => Some("CloseRequested"@),
        EventLoopMessage::MouseButton(button, pressed) => Some(
            labelled_text("MouseButton"@, button@, pressed),
        ),
        EventLoopMessage::KeyCode(keycode, pressed) => Some(
            labelled_text("KeyCode"@, keycode@, pressed),
        ),
        EventLoopMessage::CursorMoved(..) => None,
        EventLoopMessage::Nothing => Some("None"@),
    }
}

/// `name(value:pressed)`.
fn labelled(name: &str, value: &String, pressed: bool) -> (text: String)
    ensures
        text@ == labelled_text(name@, value@, pressed),
{
    let mut text = name.to_owned();
    text.append("(");
    text.append(value.as_str());
    text.append(":");
    if pressed {
        text.append("true");
    } else {
        text.append("false");
    }
    text.append(")");
    text
}

impl EventLoopMessage {
    /// The message that a window was asked to close.
    pub fn close_requested() -> (message: Self)
        ensures
            message == EventLoopMessage::CloseRequested,
    {
        EventLoopMessage::CloseRequested
    }

    /// The message that a mouse button went down or up.
    pub fn mouse_button(mousebutton: String, pressed: bool) -> (message: Self)
        ensures
            message == EventLoopMessage::MouseButton(mousebutton, pressed),
    {
        EventLoopMessage::MouseButton(mousebutton, pressed)
    }

    /// The message that a key went down or up.
    pub fn keycode(keycode: String, pressed: bool) -> (message: Self)
        ensures
            message == EventLoopMessage::KeyCode(keycode, pressed),
    {
        EventLoopMessage::KeyCode(keycode, pressed)
    }

    /// The message that the cursor moved, from the bits of its coordinates.
    pub fn cursor_moved(x: u64, y: u64) -> (message: Self)
        ensures
            message == EventLoopMessage::CursorMoved(LuaDimension { x, y }),
    {
        EventLoopMessage::CursorMoved(LuaDimension { x, y })
    }

    /// The message that nothing happened.
    pub fn none() -> (message: Self)
        ensures
            message == EventLoopMessage::Nothing,
    {
        EventLoopMessage::Nothing
    }

    /// One message of each kind, without contents: what scripts compare
    /// a message with to tell its kind.
    pub fn kinds() -> (all: Vec<EventLoopMessage>)
        ensures
            all@.len() == 5,
            all@[0]@ == MessageView::CloseRequested,
            all@[1]@ == MessageView::MouseButton(Seq::<char>::empty(), false),
            all@[2]@ == MessageView::KeyCode(Seq::<char>::empty(), false),
            all@[3]@ == MessageView::CursorMoved(LuaDimension { x: 0, y: 0 }),
            all@[4]@ == MessageView::Nothing,
    {
        let mut all: Vec<EventLoopMessage> = Vec::new();
        all.push(EventLoopMessage::CloseRequested);
        all.push(EventLoopMessage::MouseButton(String::new(), false));
        all.push(EventLoopMessage::KeyCode(String::new(), false));
        all.push(EventLoopMessage::CursorMoved(LuaDimension { x: 0, y: 0 }));
        all.push(EventLoopMessage::Nothing);
        all
    }

    /// The name of the kind of this message.
    pub fn event_type(&self) -> (name: String)
        ensures
            name@ == kind_text(*self),
    {
        match self {
            EventLoopMessage::CloseRequested => "CloseRequested".to_owned(),
            EventLoopMessage::MouseButton(..) => "MouseButton".to_owned(),
            EventLoopMessage::KeyCode(..) => "KeyCode".to_owned(),
            EventLoopMessage::CursorMoved(..) => "CursorMoved".to_owned(),
            EventLoopMessage::Nothing => "None".to_owned(),
        }
    }

    /// The name of the mouse button, for a message about one.
    pub fn get_mousebutton(&self) -> (button: Option<String>)
        ensures
            match *self {
                EventLoopMessage::MouseButton(name, _) => button is Some && button->Some_0@
                    == name@,
                _ => button is None,
            },
    {
        match self {
            EventLoopMessage::MouseButton(name, _) => Some(name.clone()),
            _ => None,
        }
    }

    /// The name of the key, for a message about one.
    pub fn get_keycode(&self) -> (keycode: Option<String>)
        ensures
            match *self {
                EventLoopMessage::KeyCode(name, _) => keycode is Some && keycode->Some_0@
                    == name@,
                _ => keycode is None,
            },
    {
        match self {
            EventLoopMessage::KeyCode(name, _) => Some(name.clone()),
            _ => None,
        }
    }

    /// Whether the button or key is down, for a message about one.
    pub fn get_pressed(&self) -> (pressed: Option<bool>)
        ensures
            pressed == match *self {
                EventLoopMessage::MouseButton(_, down) => Some(down),
                EventLoopMessage::KeyCode(_, down) => Some(down),
                _ => None,
            },
    {
        match self {
            EventLoopMessage::MouseButton(_, down) => Some(*down),
            EventLoopMessage::KeyCode(_, down) => Some(*down),
            _ => None,
        }
    }

    /// Where the cursor is, for a message that it moved.
    pub fn get_position(&self) -> (position: Option<LuaDimension>)
        ensures
            position == match *self {
                EventLoopMessage::CursorMoved(at) => Some(at),
                _ => None,
            },
    {
        match self {
            EventLoopMessage::CursorMoved(at) => Some(*at),
            _ => None,
        }
    }

    /// Whether the other message is of the same kind: what scripts mean
    /// when they compare a message with one of the named kinds.
    pub fn is_same_kind(&self, other: &EventLoopMessage) -> (res: bool)
        ensures
            res == same_kind(*self, *other),
    {
        match (self, other) {
            (EventLoopMessage::CloseRequested, EventLoopMessage::CloseRequested) => true,
            (EventLoopMessage::MouseButton(..), EventLoopMessage::MouseButton(..)) => true,
            (EventLoopMessage::KeyCode(..), EventLoopMessage::KeyCode(..)) => true,
            (EventLoopMessage::CursorMoved(..), EventLoopMessage::CursorMoved(..)) => true,
            (EventLoopMessage::Nothing, EventLoopMessage::Nothing) => true,
            _ => false,
        }
    }

    /// The message as text. A cursor movement carries numbers, which only
    /// the caller can write out: for it the answer is `None`.
    pub fn to_text(&self) -> (text: Option<String>)
        ensures
            match message_text(*self) {
                Some(expected) => text is Some && text->Some_0@ == expected,
                None => text is None,
            },
    {
        match self {
            EventLoopMessage::CloseRequested => Some("CloseRequested".to_owned()),
            EventLoopMessage::MouseButton(button, pressed) => Some(
                labelled("MouseButton", button, *pressed),
            ),
            EventLoopMessage::KeyCode(keycode, pressed) => Some(
                labelled("KeyCode", keycode, *pressed),
            ),
            EventLoopMessage::CursorMoved(..) => None,
            EventLoopMessage::Nothing => Some("None".to_owned()),
        }
    }
}

} // verus!
