use luneweb::builtin::LuneBuiltin;
use luneweb::port::{bind_address, net_find_available_port, no_port_message};
use luneweb::regex::{flatten_captures, lua_regex_match, LuaRegex, RegexError};
use luneweb::script::{init_script, LuaWebViewScript, JAVASCRIPT_API};
use luneweb::url::{decoded_text, net_url_decode, net_url_encode, UrlError};
use std::cell::RefCell;
use std::str::FromStr;

#[test]
fn encodes_text() {
    assert_eq!(net_url_encode(b"this that", None), Ok("this%20that".to_string()));
    assert_eq!(
        net_url_encode("\u{1f47e} Exterminate!".as_bytes(), Some(false)),
        Ok("%F0%9F%91%BE%20Exterminate%21".to_string())
    );
    assert_eq!(net_url_encode(b"AZaz09-._~", None), Ok("AZaz09-._~".to_string()));
    assert_eq!(net_url_encode(b"", None), Ok(String::new()));
    assert_eq!(net_url_encode(b"/?&=+", None), Ok("%2F%3F%26%3D%2B".to_string()));
}

#[test]
fn encodes_binary_data_that_is_no_text() {
    assert_eq!(net_url_encode(&[0xff, 0x00, b'a'], Some(true)), Ok("%FF%00a".to_string()));
    assert_eq!(net_url_encode(&[0xff, 0x00, b'a'], Some(false)), Err(UrlError::InvalidUtf8));
    assert_eq!(net_url_encode(&[0xff, 0x00, b'a'], None), Err(UrlError::InvalidUtf8));
}

#[test]
fn decodes_text() {
    assert_eq!(net_url_decode(b"this%20that", None), Ok(b"this that".to_vec()));
    assert_eq!(
        net_url_decode(b"%F0%9F%91%BE%20Exterminate%21", Some(false)),
        Ok("\u{1f47e} Exterminate!".as_bytes().to_vec())
    );
    assert_eq!(net_url_decode(b"a+b", None), Ok(b"a+b".to_vec()));
    assert_eq!(net_url_decode(b"plain", None), Ok(b"plain".to_vec()));
}

#[test]
fn decoding_tells_bad_input_from_bad_output() {
    assert_eq!(net_url_decode(&[0xff], None), Err(UrlError::InvalidUtf8));
    assert_eq!(net_url_decode(b"%FF", None), Err(UrlError::InvalidEncoding));
    assert_eq!(net_url_decode(b"%FF", Some(true)), Ok(vec![0xff]));
    assert_eq!(net_url_decode(&[0xff, b'%', b'4', b'1'], Some(true)), Ok(vec![0xff, b'A']));
}

#[test]
fn decoded_text_answers() {
    assert_eq!(decoded_text(Some("ab".to_string())), Ok(b"ab".to_vec()));
    assert_eq!(decoded_text(None), Err(UrlError::InvalidEncoding));
}

#[test]
fn encoding_and_decoding_undo_each_other() {
    let data: Vec<u8> = (0..=255).collect();
    let encoded = net_url_encode(&data, Some(true)).unwrap();
    assert_eq!(net_url_decode(encoded.as_bytes(), Some(true)), Ok(data));
}

#[test]
fn regex_lists_matches_and_groups() {
    let regex = LuaRegex { pattern: r"(\w)(\d)?(\w)".to_string() };
    assert_eq!(
        lua_regex_match(&regex, "AZ b1c"),
        Ok(vec![
            "AZ".to_string(),
            "A".to_string(),
            "Z".to_string(),
            "b1c".to_string(),
            "b".to_string(),
            "1".to_string(),
            "c".to_string(),
        ])
    );
}

#[test]
fn regex_without_match_or_groups() {
    let regex = LuaRegex { pattern: "[0-9]+".to_string() };
    assert_eq!(lua_regex_match(&regex, "no digits"), Ok(vec![]));
    assert_eq!(
        lua_regex_match(&regex, "1 22 333"),
        Ok(vec!["1".to_string(), "22".to_string(), "333".to_string()])
    );
}

#[test]
fn regex_with_an_invalid_pattern() {
    let regex = LuaRegex { pattern: "foo(bar".to_string() };
    assert_eq!(lua_regex_match(&regex, "foobar"), Err(RegexError::InvalidPattern));
}

#[test]
fn flattening_keeps_the_whole_match_and_drops_missing_groups() {
    let matches = vec![
        vec![Some("ab".to_string()), None, Some("b".to_string())],
        vec![None, Some("x".to_string())],
        vec![],
        vec![Some("only".to_string())],
    ];
    assert_eq!(
        flatten_captures(matches),
        vec![
            "ab".to_string(),
            "b".to_string(),
            "".to_string(),
            "x".to_string(),
            "".to_string(),
            "only".to_string(),
        ]
    );
    assert_eq!(flatten_captures(vec![]), Vec::<String>::new());
}

#[test]
fn script_statements_end_with_semicolons() {
    let mut script = LuaWebViewScript::new();
    script.write("let a = 1");
    script.extract_from_option(Some("let b = 2".to_string()));
    script.extract_from_option(None);
    assert_eq!(script.read(), "let a = 1;let b = 2;;");
    assert_eq!(LuaWebViewScript::new().read(), "");
}

#[test]
fn init_script_starts_with_the_library() {
    assert_eq!(
        init_script(Some("console.log(1)".to_string())),
        format!("{};console.log(1);", JAVASCRIPT_API)
    );
    assert_eq!(init_script(None), format!("{};;", JAVASCRIPT_API));
    assert!(JAVASCRIPT_API.contains("window.luneweb = window.lune"));
}

#[test]
fn builtin_names() {
    assert_eq!(LuneBuiltin::DateTime.name(), "datetime");
    assert_eq!(LuneBuiltin::Fs.name(), "fs");
    assert_eq!(LuneBuiltin::Luau.name(), "luau");
    assert_eq!(LuneBuiltin::Net.name(), "net");
    assert_eq!(LuneBuiltin::Task.name(), "task");
    assert_eq!(LuneBuiltin::Process.name(), "process");
    assert_eq!(LuneBuiltin::Serde.name(), "serde");
    assert_eq!(LuneBuiltin::Stdio.name(), "stdio");
    assert_eq!(LuneBuiltin::Window.name(), "window");
}

#[test]
fn builtin_from_text() {
    assert_eq!(LuneBuiltin::from_str("fs"), Ok(LuneBuiltin::Fs));
    assert_eq!(LuneBuiltin::from_str("  DateTime\n"), Ok(LuneBuiltin::DateTime));
    assert_eq!(LuneBuiltin::from_str("\tWINDOW "), Ok(LuneBuiltin::Window));
    assert_eq!(
        LuneBuiltin::from_str(" Roblox "),
        Err("Unknown builtin library ' Roblox '".to_string())
    );
    assert_eq!(LuneBuiltin::from_str(""), Err("Unknown builtin library ''".to_string()));
    assert_eq!("net".parse::<LuneBuiltin>(), Ok(LuneBuiltin::Net));
    assert_eq!(<LuneBuiltin as FromStr>::from_str("Task"), Ok(LuneBuiltin::Task));
}

#[test]
fn builtin_from_exact_name() {
    assert_eq!(LuneBuiltin::from_name("stdio", "x"), Ok(LuneBuiltin::Stdio));
    assert_eq!(
        LuneBuiltin::from_name("Stdio", "what was given"),
        Err("Unknown builtin library 'what was given'".to_string())
    );
    assert_eq!(
        LuneBuiltin::Serde.creation_failure(),
        "Failed to create builtin library 'serde'"
    );
}

#[test]
fn every_builtin_is_found_by_its_name() {
    let all = [
        LuneBuiltin::DateTime,
        LuneBuiltin::Fs,
        LuneBuiltin::Luau,
        LuneBuiltin::Net,
        LuneBuiltin::Task,
        LuneBuiltin::Process,
        LuneBuiltin::Serde,
        LuneBuiltin::Stdio,
        LuneBuiltin::Window,
    ];
    for builtin in all {
        assert_eq!(LuneBuiltin::from_str(builtin.name()), Ok(builtin));
    }
}

#[test]
fn port_search_takes_the_first_that_is_free() {
    let asked = RefCell::new(Vec::new());
    let found = net_find_available_port(|port| {
        asked.borrow_mut().push(port);
        port >= 8003
    });
    assert_eq!(found, Some(8003));
    assert_eq!(*asked.borrow(), vec![8000, 8001, 8002, 8003]);
}

#[test]
fn port_search_ends_below_9000() {
    let asked = RefCell::new(0u32);
    let found = net_find_available_port(|port| {
        *asked.borrow_mut() += 1;
        port >= 9000
    });
    assert_eq!(found, None);
    assert_eq!(*asked.borrow(), 1000);
    assert_eq!(net_find_available_port(|port| port == 8999), Some(8999));
    assert_eq!(no_port_message(), "Failed to find an available port...");
}

#[test]
fn address_defaults_to_the_loopback() {
    assert_eq!(bind_address(None), "127.0.0.1");
    assert_eq!(bind_address(Some("0.0.0.0".to_string())), "0.0.0.0");
}

#[test]
fn builtin_name_is_trimmed_of_every_kind_of_whitespace() {
    assert_eq!(LuneBuiltin::from_str("\u{3000}fs\u{a0}"), Ok(LuneBuiltin::Fs));
    assert_eq!(LuneBuiltin::from_str("\u{2028}\u{85}NET\u{205f}\r\n"), Ok(LuneBuiltin::Net));
    assert_eq!(
        LuneBuiltin::from_str("f s"),
        Err("Unknown builtin library 'f s'".to_string())
    );
    assert_eq!(
        LuneBuiltin::from_str("\u{200b}fs"),
        Err("Unknown builtin library '\u{200b}fs'".to_string())
    );
    assert_eq!(LuneBuiltin::from_str("   "), Err("Unknown builtin library '   '".to_string()));
}
