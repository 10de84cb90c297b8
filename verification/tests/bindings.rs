use luneweb::context::{inject_lune_standard_libraries, GlobalsContextBuilder, LuneModule};
use luneweb::response::{
    failure_parts, LuaResponse, LuaResponseKind, ResponseError, ResponseParts,
};
use luneweb::webview::LoopEvent::{AboutToWait, CloseRequested, Other, RedrawRequested};
use luneweb::webview::{
    command_closes, listener_step, react, send_outcome, BuilderConfig, Listener,
    ListenerAction, LoopEvent, LoopReaction, Protocol, SendOutcome, WebviewCommand,
    WebviewEvent,
};
use luneweb::window::{
    any_event, first_event, invalid_webview_config, own_event, window_title, wrong_kind,
    ConfigError, ConversionError, CustomProtocol, LuaWebViewConfig, LuaWindowConfig,
    LuaWindowEvent, WebViewContent,
};

fn config() -> LuaWebViewConfig {
    LuaWebViewConfig {
        init_script: None,
        html: None,
        url: None,
        headers: vec![],
        custom_protocol_name: None,
        custom_protocol_handler: None,
    }
}

#[test]
fn plain_text_response() {
    let response = LuaResponse::from_text(b"hello".to_vec());
    assert_eq!(response.kind, LuaResponseKind::PlainText);
    assert_eq!(response.status, 200);
    assert_eq!(
        response.into_parts(),
        Ok(ResponseParts {
            status: 200,
            content_type: Some("text/plain".to_string()),
            headers: vec![],
            body: b"hello".to_vec(),
        })
    );
}

#[test]
fn plain_text_response_without_body() {
    let response = LuaResponse {
        kind: LuaResponseKind::PlainText,
        status: 200,
        headers: vec![],
        body: None,
    };
    assert_eq!(response.into_parts(), Err(ResponseError::MissingBody));
}

#[test]
fn table_response() {
    let headers = vec![("X-Test".to_string(), b"1".to_vec())];
    let response = LuaResponse::from_table(Some(404), headers.clone(), Some(b"gone".to_vec()));
    assert_eq!(
        response.into_parts(),
        Ok(ResponseParts { status: 404, content_type: None, headers, body: b"gone".to_vec() })
    );
    let bare = LuaResponse::from_table(None, vec![], None);
    assert_eq!(bare.status, 200);
    assert_eq!(
        bare.into_parts(),
        Ok(ResponseParts { status: 200, content_type: None, headers: vec![], body: vec![] })
    );
}

#[test]
fn status_has_three_digits() {
    for status in [0u16, 99, 1000, u16::MAX] {
        let response = LuaResponse::from_table(Some(status), vec![], None);
        assert_eq!(response.into_parts(), Err(ResponseError::InvalidStatus));
    }
    for status in [100u16, 200, 599, 999] {
        let response = LuaResponse::from_table(Some(status), vec![], None);
        assert_eq!(response.into_parts().unwrap().status, status);
    }
}

#[test]
fn lines_of_the_text_protocol() {
    assert!(matches!(WebviewCommand::from_line("^CloseWindow"), Some(WebviewCommand::CloseWindow)));
    assert!(matches!(WebviewCommand::from_line("^OpenDevtools"), Some(WebviewCommand::OpenDevtools)));
    assert!(matches!(WebviewCommand::from_line("^CloseDevtools"), Some(WebviewCommand::CloseDevtools)));
    match WebviewCommand::from_line("^LoadUrl:https://example.com") {
        Some(WebviewCommand::LoadUrl(url)) => assert_eq!(url, "https://example.com"),
        other => panic!("{:?}", other),
    }
    match WebviewCommand::from_line("^LoadUrl:a^LoadUrl:b") {
        Some(WebviewCommand::LoadUrl(url)) => assert_eq!(url, "ab"),
        other => panic!("{:?}", other),
    }
    assert!(WebviewCommand::from_line("^closewindow").is_none());
    assert!(WebviewCommand::from_line(" ^CloseWindow").is_none());
    assert!(WebviewCommand::from_line("x^LoadUrl:y").is_none());
    assert!(WebviewCommand::from_line("").is_none());
}

#[test]
fn failure_messages() {
    assert_eq!(
        WebviewCommand::CloseWindow.failure_message(),
        "Failed to send exit message to webview"
    );
    assert_eq!(
        WebviewCommand::LoadUrl("u".to_string()).failure_message(),
        "Failed to send exit message to webview"
    );
    assert_eq!(
        WebviewCommand::ExecuteJavascript("1".to_string()).failure_message(),
        "Failed to send javascript code to webview"
    );
    assert!(command_closes(&WebviewCommand::CloseWindow));
    assert!(!command_closes(&WebviewCommand::OpenDevtools));
}

#[test]
fn listeners_wake_for_their_event_only() {
    let ran = WebviewEvent::ExecutedJavascript("42".to_string());
    assert!(ran.wakes(Listener::ExecutedJavascript));
    assert!(!ran.wakes(Listener::Exit));
    assert_eq!(ran.script_result(), Some("42".to_string()));
    assert!(WebviewEvent::ClosedWindow.wakes(Listener::Exit));
    assert!(!WebviewEvent::ClosedWindow.wakes(Listener::ExecutedJavascript));
    assert!(!WebviewEvent::Init.wakes(Listener::Exit));
    assert_eq!(WebviewEvent::Init.script_result(), None);
}

#[test]
fn webview_loop_reactions() {
    assert_eq!(
        react(LoopEvent::CloseRequested, Protocol::Commands),
        LoopReaction { poll_commands: true, exit: true, notify_closed: true, request_redraw: false }
    );
    assert_eq!(
        react(LoopEvent::AboutToWait, Protocol::Lines),
        LoopReaction { poll_commands: false, exit: false, notify_closed: false, request_redraw: true }
    );
    assert_eq!(
        react(LoopEvent::RedrawRequested, Protocol::Lines),
        LoopReaction { poll_commands: true, exit: false, notify_closed: false, request_redraw: false }
    );
    assert_eq!(
        react(LoopEvent::Other, Protocol::Commands),
        LoopReaction { poll_commands: true, exit: false, notify_closed: false, request_redraw: false }
    );
    assert_eq!(
        react(LoopEvent::Other, Protocol::Lines),
        LoopReaction { poll_commands: false, exit: false, notify_closed: false, request_redraw: false }
    );
}

#[test]
fn builder_config_holds_the_address() {
    let config = BuilderConfig { url: Some("https://example.com".to_string()) };
    assert_eq!(config.url.as_deref(), Some("https://example.com"));
}

#[test]
fn window_events_of_a_round() {
    assert_eq!(first_event(&vec![]), LuaWindowEvent::Nothing);
    assert_eq!(first_event(&vec![AboutToWait, Other]), LuaWindowEvent::Nothing);
    assert_eq!(
        first_event(&vec![Other, RedrawRequested, CloseRequested]),
        LuaWindowEvent::Redraw
    );
    assert_eq!(first_event(&vec![CloseRequested, RedrawRequested]), LuaWindowEvent::Exit);

    let round = vec![(1, CloseRequested), (2, RedrawRequested), (3, CloseRequested), (4, Other)];
    assert_eq!(own_event(&round, 1), LuaWindowEvent::Exit);
    assert_eq!(own_event(&round, 3), LuaWindowEvent::Exit);
    assert_eq!(own_event(&round, 2), LuaWindowEvent::Nothing);
    assert_eq!(own_event(&round, 9), LuaWindowEvent::Nothing);
    assert_eq!(any_event(&round), (Some(3), LuaWindowEvent::Exit));
    assert_eq!(any_event(&vec![(5, Other)]), (None, LuaWindowEvent::Nothing));
}

#[test]
fn window_titles() {
    assert_eq!(window_title(None, false), "Lune");
    assert_eq!(window_title(None, true), "Lune WebView");
    assert_eq!(window_title(Some("Mine".to_string()), true), "Mine");
    assert_eq!(
        LuaWindowConfig::from_fields(None, Some((800, 600))),
        LuaWindowConfig { title: "Lune WebView".to_string(), size: Some((800, 600)) }
    );
}

#[test]
fn markup_wins_over_address() {
    let mut both = config();
    both.html = Some("<p>".to_string());
    both.url = Some("https://example.com".to_string());
    assert_eq!(both.content(), WebViewContent::Html("<p>".to_string()));
    let mut address = config();
    address.url = Some("https://example.com".to_string());
    assert_eq!(address.content(), WebViewContent::Url("https://example.com".to_string()));
    assert_eq!(config().content(), WebViewContent::Blank);
}

#[test]
fn custom_protocol_needs_name_and_handler() {
    assert_eq!(config().custom_protocol(), Ok(None));
    let mut whole = config();
    whole.custom_protocol_name = Some("app".to_string());
    whole.custom_protocol_handler = Some(7);
    assert_eq!(
        whole.custom_protocol(),
        Ok(Some(CustomProtocol { name: "app".to_string(), handler: 7 }))
    );
    let mut name_only = config();
    name_only.custom_protocol_name = Some("app".to_string());
    assert_eq!(name_only.custom_protocol(), Err(ConfigError::IncompleteCustomProtocol));
    let mut handler_only = config();
    handler_only.custom_protocol_handler = Some(7);
    assert_eq!(handler_only.custom_protocol(), Err(ConfigError::IncompleteCustomProtocol));
    assert_eq!(
        ConfigError::IncompleteCustomProtocol.message(),
        "config for custom_protocol is incomplete, both custom_protocol_name and custom_protocol_handler must be present"
    );
}

#[test]
fn conversion_errors() {
    assert_eq!(
        invalid_webview_config("number"),
        ConversionError {
            from: "number".to_string(),
            to: "WebviewConfig".to_string(),
            message: Some("Invalid webview config - expected table, got number".to_string()),
        }
    );
    assert_eq!(
        wrong_kind("nil", "table"),
        ConversionError { from: "nil".to_string(), to: "table".to_string(), message: None }
    );
}

#[test]
fn aliases_are_found_in_the_order_they_were_added() {
    let mut builder: GlobalsContextBuilder<u32> = GlobalsContextBuilder::new();
    let ok: Result<Vec<(String, u32)>, String> = Ok(vec![("fs".to_string(), 1)]);
    assert_eq!(builder.with_alias("lune".to_string(), ok), Ok(()));
    let failed: Result<Vec<(String, u32)>, String> = Err("handler failed".to_string());
    assert_eq!(builder.with_alias("broken".to_string(), failed), Err("handler failed".to_string()));
    let again: Result<Vec<(String, u32)>, String> = Ok(vec![("net".to_string(), 2)]);
    assert_eq!(builder.with_alias("lune".to_string(), again), Ok(()));
    let context = builder.build();

    let lune = context.get_alias("lune").unwrap();
    assert_eq!(lune.alias, "lune");
    assert_eq!(lune.get("fs"), Some(&1));
    assert_eq!(lune.get("net"), None);
    assert!(context.get_alias("broken").is_none());
    assert!(context.get_alias("Lune").is_none());
}

#[test]
fn later_child_replaces_earlier_one() {
    let mut module: LuneModule<&str> = LuneModule::new("lune".to_string());
    module.insert("fs".to_string(), "first");
    module.insert("net".to_string(), "other");
    module.insert("fs".to_string(), "second");
    assert_eq!(module.get("fs"), Some(&"second"));
    assert_eq!(module.get("net"), Some(&"other"));
    assert_eq!(module.get("task"), None);
}

#[test]
fn standard_libraries_go_under_lune() {
    let mut builder: GlobalsContextBuilder<u8> = GlobalsContextBuilder::new();
    inject_lune_standard_libraries(
        &mut builder,
        vec![("fs".to_string(), 1), ("regex".to_string(), 2)],
    );
    let context = builder.build();
    let lune = context.get_alias("lune").unwrap();
    assert_eq!(lune.get("regex"), Some(&2));
    assert_eq!(lune.get("fs"), Some(&1));
    assert_eq!(lune.get("roblox"), None);
}

#[test]
fn failed_handler_answers_with_status_500() {
    assert_eq!(
        failure_parts(b"boom".to_vec()),
        ResponseParts {
            status: 500,
            content_type: Some("text/plain".to_string()),
            headers: vec![],
            body: b"boom".to_vec(),
        }
    );
}

#[test]
fn command_without_receiver_is_dropped_without_error() {
    assert_eq!(send_outcome(true), SendOutcome::Sent);
    assert_eq!(send_outcome(false), SendOutcome::ChannelClosed);
}

#[test]
fn listener_fires_once_or_leaves() {
    let ran = WebviewEvent::ExecutedJavascript("42".to_string());
    assert_eq!(
        listener_step(Listener::ExecutedJavascript, Some(&ran)),
        ListenerAction::Fire(Some("42".to_string()))
    );
    assert_eq!(listener_step(Listener::Exit, Some(&ran)), ListenerAction::Wait);
    assert_eq!(
        listener_step(Listener::Exit, Some(&WebviewEvent::ClosedWindow)),
        ListenerAction::Fire(None)
    );
    assert_eq!(
        listener_step(Listener::ExecutedJavascript, Some(&WebviewEvent::ClosedWindow)),
        ListenerAction::Wait
    );
    assert_eq!(listener_step(Listener::Exit, Some(&WebviewEvent::Init)), ListenerAction::Wait);
    assert_eq!(listener_step(Listener::Exit, None), ListenerAction::Leave);
    assert_eq!(listener_step(Listener::ExecutedJavascript, None), ListenerAction::Leave);
}
