use luneweb::event::{EventLoopHandle, EventLoopMessage, LuaDimension};
use luneweb::input::{
    mouse_button_name, pump_message, to_message, ElementState, KeyInput, LuaWebViewMessage,
    MessageError, MouseButton, NamedKey, Toolkit, WindowInput,
};
use luneweb::relay::{
    callback_asks_stop, callback_breaks, pump_continues, relay_step, route_ipc, StartError,
    IpcRoute, RelayAction, RelayWake, LoopStart,
};
use luneweb::scheduler::value::Value;

fn at(x: f64, y: f64) -> LuaDimension {
    LuaDimension { x: x.to_bits(), y: y.to_bits() }
}

fn key(text: Option<&str>, named: NamedKey, physical: &str, repeat: bool, state: ElementState) -> WindowInput {
    WindowInput::KeyboardInput(KeyInput {
        text: text.map(|t| t.to_string()),
        named,
        physical: physical.to_string(),
        repeat,
        state,
    })
}

#[test]
fn constructors_and_getters() {
    let click = EventLoopMessage::mouse_button("left".to_string(), true);
    assert_eq!(click, EventLoopMessage::MouseButton("left".to_string(), true));
    assert_eq!(click.event_type(), "MouseButton");
    assert_eq!(click.get_mousebutton(), Some("left".to_string()));
    assert_eq!(click.get_keycode(), None);
    assert_eq!(click.get_pressed(), Some(true));
    assert_eq!(click.get_position(), None);

    let typed = EventLoopMessage::keycode("a".to_string(), false);
    assert_eq!(typed.event_type(), "KeyCode");
    assert_eq!(typed.get_keycode(), Some("a".to_string()));
    assert_eq!(typed.get_mousebutton(), None);
    assert_eq!(typed.get_pressed(), Some(false));

    let moved = EventLoopMessage::cursor_moved(1.5f64.to_bits(), 2.0f64.to_bits());
    assert_eq!(moved.event_type(), "CursorMoved");
    assert_eq!(moved.get_position(), Some(at(1.5, 2.0)));
    assert_eq!(moved.get_pressed(), None);

    assert_eq!(EventLoopMessage::close_requested().event_type(), "CloseRequested");
    assert_eq!(EventLoopMessage::none().event_type(), "None");
    assert_eq!(EventLoopMessage::none().get_pressed(), None);
}

#[test]
fn messages_as_text() {
    assert_eq!(
        EventLoopMessage::mouse_button("left".to_string(), true).to_text(),
        Some("MouseButton(left:true)".to_string())
    );
    assert_eq!(
        EventLoopMessage::keycode("esc".to_string(), false).to_text(),
        Some("KeyCode(esc:false)".to_string())
    );
    assert_eq!(EventLoopMessage::close_requested().to_text(), Some("CloseRequested".to_string()));
    assert_eq!(EventLoopMessage::none().to_text(), Some("None".to_string()));
    assert_eq!(EventLoopMessage::cursor_moved(0, 0).to_text(), None);
}

#[test]
fn kinds_compare_without_their_contents() {
    let a = EventLoopMessage::mouse_button("left".to_string(), true);
    let b = EventLoopMessage::mouse_button("".to_string(), false);
    let c = EventLoopMessage::keycode("left".to_string(), true);
    assert!(a.is_same_kind(&b));
    assert!(!a.is_same_kind(&c));
    assert!(EventLoopMessage::none().is_same_kind(&EventLoopMessage::none()));
    assert!(!EventLoopMessage::none().is_same_kind(&EventLoopMessage::close_requested()));
    assert!(EventLoopMessage::cursor_moved(1, 2).is_same_kind(&EventLoopMessage::cursor_moved(3, 4)));
}

#[test]
fn posted_message_prefers_position_then_button_then_key() {
    let all = LuaWebViewMessage {
        __internal: true,
        position: Some(at(3.0, 4.0)),
        mousebutton: Some("left".to_string()),
        keycode: Some("a".to_string()),
        pressed: None,
    };
    assert_eq!(all.into_eventloop_message(), Ok(Some(EventLoopMessage::CursorMoved(at(3.0, 4.0)))));

    let button = LuaWebViewMessage {
        __internal: true,
        position: None,
        mousebutton: Some("left".to_string()),
        keycode: Some("a".to_string()),
        pressed: Some(false),
    };
    assert_eq!(
        button.into_eventloop_message(),
        Ok(Some(EventLoopMessage::MouseButton("left".to_string(), false)))
    );

    let typed = LuaWebViewMessage {
        __internal: true,
        position: None,
        mousebutton: None,
        keycode: Some("Enter".to_string()),
        pressed: Some(true),
    };
    assert_eq!(
        typed.into_eventloop_message(),
        Ok(Some(EventLoopMessage::KeyCode("Enter".to_string(), true)))
    );
}

#[test]
fn posted_message_without_pressed_or_without_anything() {
    let button = LuaWebViewMessage {
        __internal: true,
        position: None,
        mousebutton: Some("left".to_string()),
        keycode: None,
        pressed: None,
    };
    assert_eq!(button.into_eventloop_message(), Err(MessageError::MissingPressed));
    let typed = LuaWebViewMessage {
        __internal: true,
        position: None,
        mousebutton: None,
        keycode: Some("a".to_string()),
        pressed: None,
    };
    assert_eq!(typed.into_eventloop_message(), Err(MessageError::MissingPressed));
    let empty = LuaWebViewMessage {
        __internal: false,
        position: None,
        mousebutton: None,
        keycode: None,
        pressed: Some(true),
    };
    assert_eq!(empty.into_eventloop_message(), Ok(None));
}

#[test]
fn button_names_by_toolkit() {
    assert_eq!(mouse_button_name(MouseButton::Left, Toolkit::Winit), Some("left".to_string()));
    assert_eq!(mouse_button_name(MouseButton::Right, Toolkit::Tao), Some("right".to_string()));
    assert_eq!(mouse_button_name(MouseButton::Middle, Toolkit::Tao), Some("middle".to_string()));
    assert_eq!(mouse_button_name(MouseButton::Back, Toolkit::Winit), Some("back".to_string()));
    assert_eq!(mouse_button_name(MouseButton::Forward, Toolkit::Winit), Some("forward".to_string()));
    assert_eq!(mouse_button_name(MouseButton::Back, Toolkit::Tao), None);
    assert_eq!(mouse_button_name(MouseButton::Forward, Toolkit::Tao), None);
    assert_eq!(mouse_button_name(MouseButton::Other, Toolkit::Winit), None);
}

#[test]
fn native_events_become_messages() {
    assert_eq!(
        to_message(WindowInput::CloseRequested, Toolkit::Winit),
        Some(EventLoopMessage::CloseRequested)
    );
    assert_eq!(
        to_message(WindowInput::MouseInput(ElementState::Released, MouseButton::Right), Toolkit::Tao),
        Some(EventLoopMessage::MouseButton("right".to_string(), false))
    );
    assert_eq!(
        to_message(WindowInput::MouseInput(ElementState::Pressed, MouseButton::Other), Toolkit::Winit),
        None
    );
    assert_eq!(to_message(WindowInput::Other, Toolkit::Tao), None);
    assert_eq!(to_message(WindowInput::CursorMoved(at(1.0, 2.0)), Toolkit::Winit), None);
    assert_eq!(
        to_message(WindowInput::CursorMoved(at(1.0, 2.0)), Toolkit::Tao),
        Some(EventLoopMessage::CursorMoved(at(1.0, 2.0)))
    );
    assert_eq!(
        to_message(WindowInput::UserEvent(EventLoopMessage::none()), Toolkit::Tao),
        Some(EventLoopMessage::Nothing)
    );
    assert_eq!(to_message(WindowInput::UserEvent(EventLoopMessage::none()), Toolkit::Winit), None);
}

#[test]
fn keys_by_toolkit() {
    assert_eq!(
        to_message(key(Some("\u{1b}"), NamedKey::Escape, "Escape", false, ElementState::Pressed), Toolkit::Winit),
        Some(EventLoopMessage::KeyCode("esc".to_string(), true))
    );
    assert_eq!(
        to_message(key(Some("\t"), NamedKey::Tab, "Tab", false, ElementState::Released), Toolkit::Winit),
        Some(EventLoopMessage::KeyCode("tab".to_string(), false))
    );
    assert_eq!(
        to_message(key(Some("\r"), NamedKey::Enter, "Enter", true, ElementState::Released), Toolkit::Winit),
        Some(EventLoopMessage::KeyCode("enter".to_string(), true))
    );
    assert_eq!(
        to_message(key(Some(" "), NamedKey::Space, "Space", false, ElementState::Pressed), Toolkit::Winit),
        Some(EventLoopMessage::KeyCode("space".to_string(), true))
    );
    assert_eq!(
        to_message(key(Some("q"), NamedKey::Other, "KeyQ", false, ElementState::Pressed), Toolkit::Winit),
        Some(EventLoopMessage::KeyCode("q".to_string(), true))
    );
    assert_eq!(
        to_message(key(None, NamedKey::Escape, "Escape", false, ElementState::Pressed), Toolkit::Winit),
        None
    );
    assert_eq!(
        to_message(key(None, NamedKey::Other, "KeyQ", false, ElementState::Released), Toolkit::Tao),
        Some(EventLoopMessage::KeyCode("KeyQ".to_string(), false))
    );
}

#[test]
fn last_event_of_a_round_wins() {
    let events = vec![
        (1, WindowInput::CloseRequested),
        (2, WindowInput::MouseInput(ElementState::Pressed, MouseButton::Left)),
        (3, WindowInput::Other),
    ];
    assert_eq!(
        pump_message(events, Toolkit::Winit),
        (Some(2), EventLoopMessage::MouseButton("left".to_string(), true))
    );
    assert_eq!(pump_message(vec![], Toolkit::Winit), (None, EventLoopMessage::Nothing));
    assert_eq!(
        pump_message(vec![(9, WindowInput::Other)], Toolkit::Tao),
        (None, EventLoopMessage::Nothing)
    );
}

#[test]
fn relay_decisions() {
    assert_eq!(relay_step(RelayWake::StopRequested, None, 1), RelayAction::Stop);
    assert_eq!(relay_step(RelayWake::StopRequested, Some(1), 1), RelayAction::Stop);
    assert_eq!(relay_step(RelayWake::Message, Some(2), 1), RelayAction::Skip);
    assert_eq!(relay_step(RelayWake::Message, Some(1), 1), RelayAction::Deliver);
    assert_eq!(relay_step(RelayWake::Message, None, 1), RelayAction::Deliver);
}

#[test]
fn relay_enqueues_nothing_without_a_new_message() {
    for from in [None, Some(1), Some(3)] {
        assert_eq!(relay_step(RelayWake::SignalGone, from, 1), RelayAction::Unwatch);
        assert_eq!(relay_step(RelayWake::Lagged, from, 1), RelayAction::Skip);
        assert_eq!(relay_step(RelayWake::SourceGone, from, 1), RelayAction::Stop);
    }
}

/// Runs a relay over the wakes of a loop whose handle was dropped without a
/// stop, and counts what it enqueues.
#[test]
fn relay_with_a_dropped_handle_delivers_each_message_once() {
    let wakes = [
        RelayWake::Message,
        RelayWake::SignalGone,
        RelayWake::Message,
        RelayWake::Message,
        RelayWake::SourceGone,
    ];
    let mut delivered = 0;
    let mut watching = true;
    let mut rounds = 0;
    for wake in wakes {
        assert!(watching || wake != RelayWake::SignalGone);
        rounds += 1;
        match relay_step(wake, None, 7) {
            RelayAction::Deliver => delivered += 1,
            RelayAction::Unwatch => watching = false,
            RelayAction::Skip => {}
            RelayAction::Stop => break,
        }
    }
    assert_eq!(delivered, 3);
    assert!(!watching);
    assert_eq!(rounds, 5);
}

#[test]
fn callbacks_that_end_a_loop() {
    assert!(callback_breaks(Some(EventLoopHandle::Break)));
    assert!(!callback_breaks(None));
    assert!(callback_asks_stop(&Value::Boolean(true)));
    assert!(!callback_asks_stop(&Value::Boolean(false)));
    assert!(!callback_asks_stop(&Value::Nil));
    assert!(!callback_asks_stop(&Value::Number(1f64.to_bits())));
    assert!(pump_continues(1));
    assert!(!pump_continues(0));
}

#[test]
fn posted_messages_are_sorted() {
    let internal = LuaWebViewMessage {
        __internal: true,
        position: None,
        mousebutton: Some("left".to_string()),
        keycode: None,
        pressed: Some(true),
    };
    assert_eq!(
        route_ipc(Some(internal), 0),
        Ok(IpcRoute::Event(EventLoopMessage::MouseButton("left".to_string(), true)))
    );
    assert_eq!(route_ipc(None, 2), Ok(IpcRoute::Forward));
    assert_eq!(route_ipc(None, 0), Ok(IpcRoute::Drop));
    let empty = LuaWebViewMessage {
        __internal: true,
        position: None,
        mousebutton: None,
        keycode: None,
        pressed: None,
    };
    assert_eq!(route_ipc(Some(empty), 1), Err(MessageError::Empty));
}

#[test]
fn loop_start() {
    let mut record = LoopStart::new();
    assert!(record.needs_run());
    assert_eq!(
        record.error_if_before_run("create_window"),
        Some("please make sure to call create_window after calling wry.run()".to_string())
    );
    assert_eq!(record.start(), Ok(()));
    assert!(!record.needs_run());
    assert_eq!(record.error_if_before_run("create_window"), None);
    assert_eq!(record.start(), Err(StartError::StartedTwice));
    assert!(!record.needs_run());
    assert_eq!(
        StartError::StartedTwice.message(),
        "wry.run() got called more than once\nthe first call to event_loop automatically calls this function."
    );
}
