use middlesox::cli::{
    caps_lines, choose_value, commands_lines, exec_line, get_line, handle_response, parse_value,
    status_lines,
};
use middlesox::control::{
    choose_runtime_dir, connect_check, daemon_timed_out, fallback_dir, listener_step, lock_is_held,
    lock_outcome, lock_path, lock_path_in, lock_step, parse_pid, pid_line, socket_path,
    socket_path_in, ControlRequest, ControlResponse, FallbackDir, ListenerStep, LockEvent, LockStep,
    SocketEntry,
};
use middlesox::json::parse_json;
use middlesox::value::JsonValue;

fn json(text: &str) -> JsonValue {
    parse_json(text).unwrap()
}

#[test]
fn runtime_directories() {
    assert_eq!(choose_runtime_dir(Some("/run/user/7"), 7, 9, FallbackDir::Usable), "/run/user/7");
    assert_eq!(fallback_dir(1000), "/tmp/middlesox-1000");
    assert_eq!(choose_runtime_dir(None, 1000, 9, FallbackDir::Usable), "/tmp/middlesox-1000");
    let own = FallbackDir::Existing { is_symlink: false, owner: 1000 };
    assert_eq!(choose_runtime_dir(None, 1000, 9, own), "/tmp/middlesox-1000");
    let link = FallbackDir::Existing { is_symlink: true, owner: 1000 };
    assert_eq!(choose_runtime_dir(None, 1000, 9, link), "/run/middlesox-rejected-9");
    let foreign = FallbackDir::Existing { is_symlink: false, owner: 0 };
    assert_eq!(choose_runtime_dir(None, 1000, 9, foreign), "/run/middlesox-rejected-9");
    assert_eq!(lock_path(Some("/r"), 1, 2, FallbackDir::Usable), "/r/middlesox.lock");
    assert_eq!(socket_path(None, 1, 2, FallbackDir::Usable), "/tmp/middlesox-1/middlesox.sock");
    assert_eq!(lock_path_in("/r/"), "/r/middlesox.lock");
    assert_eq!(socket_path_in("/r"), "/r/middlesox.sock");
}

#[test]
fn the_lock_file_is_emptied_only_under_the_lock() {
    let step = |event| lock_step("/l", 42, event);
    assert!(matches!(step(LockEvent::Opened), LockStep::TryLock));
    assert!(matches!(step(LockEvent::Tried(0)), LockStep::Empty));
    match step(LockEvent::Emptied) {
        LockStep::Write(text) => assert_eq!(text, "42\n"),
        step => panic!("{step:?}"),
    }
    assert!(matches!(step(LockEvent::Written), LockStep::Held));
    match step(LockEvent::Tried(-1)) {
        LockStep::Refused(e) => {
            assert_eq!(e, "Another instance is already running (lock file: /l)");
        }
        step => panic!("{step:?}"),
    }
}

#[test]
fn locks() {
    assert_eq!(pid_line(4711), "4711\n");
    assert_eq!(parse_pid(&pid_line(u32::MAX)), Some(u32::MAX));
    assert_eq!(parse_pid(" 12 \n"), Some(12));
    assert_eq!(parse_pid("+12"), Some(12));
    assert_eq!(parse_pid(""), None);
    assert_eq!(parse_pid("-1"), None);
    assert_eq!(parse_pid("4294967296"), None);
    assert_eq!(parse_pid("1 2"), None);
    assert_eq!(lock_outcome("/l", 0), Ok(()));
    assert_eq!(
        lock_outcome("/l", -1),
        Err("Another instance is already running (lock file: /l)".to_string())
    );
    assert!(!lock_is_held(None));
    assert!(!lock_is_held(Some(0)));
    assert!(lock_is_held(Some(-1)));
}

#[test]
fn control_sockets() {
    assert_eq!(listener_step("/s", &SocketEntry::Missing), Ok(ListenerStep::Bind));
    assert_eq!(listener_step("/s", &SocketEntry::Other), Ok(ListenerStep::RemoveAndBind));
    assert_eq!(
        listener_step("/s", &SocketEntry::Symlink),
        Err("Refusing to replace symlink at socket path: /s".to_string())
    );
    assert_eq!(
        listener_step("/s", &SocketEntry::Unreadable("denied".into())),
        Err("Failed to check socket path /s: denied".to_string())
    );
    assert_eq!(connect_check("/s", true), Ok(()));
    assert_eq!(
        connect_check("/s", false),
        Err("Daemon is not running (socket not found: /s)".to_string())
    );
    assert_eq!(daemon_timed_out(), "Daemon did not respond within 30s");
}

#[test]
fn requests_and_responses_are_lines() {
    let line = |r: ControlRequest| r.to_line();
    assert_eq!(line(ControlRequest::Get { key: "a".into() }), "{\"method\":\"get\",\"key\":\"a\"}\n");
    assert_eq!(
        line(ControlRequest::SetKey { key: "a".into(), value: json("[1, null]") }),
        "{\"method\":\"set\",\"key\":\"a\",\"value\":[1,null]}\n"
    );
    assert_eq!(line(ControlRequest::Exec { name: "x".into() }), "{\"method\":\"exec\",\"name\":\"x\"}\n");
    assert_eq!(line(ControlRequest::Caps), "{\"method\":\"caps\"}\n");
    assert_eq!(line(ControlRequest::Commands), "{\"method\":\"commands\"}\n");
    assert_eq!(line(ControlRequest::Status), "{\"method\":\"status\"}\n");
    assert_eq!(line(ControlRequest::Stop), "{\"method\":\"stop\"}\n");
    assert_eq!(
        ControlResponse::ok(json("{\"a\":1}")).to_line(),
        "{\"success\":true,\"result\":{\"a\":1}}\n"
    );
    assert_eq!(ControlResponse::ok_empty().to_line(), "{\"success\":true}\n");
    assert_eq!(
        ControlResponse::err("no\nway").to_line(),
        "{\"success\":false,\"error\":\"no\\nway\"}\n"
    );
}

#[test]
fn arguments_become_values() {
    assert_eq!(parse_value("3"), json("3"));
    assert_eq!(parse_value("{\"a\": [1]}"), json("{\"a\":[1]}"));
    assert_eq!(parse_value("\"3\""), JsonValue::text("3"));
    assert_eq!(parse_value("true"), JsonValue::Bool(true));
    assert_eq!(parse_value("null"), JsonValue::Null);
    assert_eq!(parse_value("{\"tags\":5}"), json("{\"tags\": 5}"));
    // What is no JSON is kept as it is
    assert_eq!(parse_value("+3"), JsonValue::text("+3"));
    assert_eq!(parse_value("007"), JsonValue::text("007"));
    assert_eq!(parse_value(".5"), JsonValue::text(".5"));
    assert_eq!(parse_value("1."), JsonValue::text("1."));
    assert_eq!(parse_value("TRUE"), JsonValue::text("TRUE"));
    assert_eq!(parse_value("False"), JsonValue::text("False"));
    assert_eq!(parse_value("inf"), JsonValue::text("inf"));
    assert_eq!(parse_value("NaN"), JsonValue::text("NaN"));
    assert_eq!(parse_value("grid"), JsonValue::text("grid"));
    assert_eq!(parse_value(""), JsonValue::text(""));
}

#[test]
fn json_comes_before_text() {
    assert_eq!(choose_value("1", Some(JsonValue::Null)), JsonValue::Null);
    assert_eq!(choose_value("1", None), JsonValue::text("1"));
}

#[test]
fn answers_are_shown() {
    assert_eq!(handle_response(ControlResponse::ok(json("1"))), Ok(json("1")));
    assert_eq!(handle_response(ControlResponse::ok_empty()), Ok(JsonValue::Null));
    assert_eq!(handle_response(ControlResponse::err("no")), Err("no".to_string()));
    let odd = ControlResponse { success: false, result: None, error: None };
    assert_eq!(handle_response(odd), Err("Unknown error".to_string()));

    assert_eq!(get_line(&json("{\"b\":[1],\"a\":{}}")), "{\n  \"a\": {},\n  \"b\": [\n    1\n  ]\n}");
    assert_eq!(exec_line(&JsonValue::Null), None);
    assert_eq!(exec_line(&JsonValue::text("out")), Some("\"out\"".to_string()));
    assert_eq!(
        caps_lines(&json(r#"[{"name":"a","access":"ReadOnly","description":"d"},{"name":1}]"#)),
        vec!["Capabilities (2):", "  a (ReadOnly): d", "  - (-): -"]
    );
    assert!(caps_lines(&JsonValue::Null).is_empty());
    assert_eq!(commands_lines(&json("[]")), vec!["No commands defined in config"]);
    assert_eq!(
        commands_lines(&json(r#"[{"name":"a","description":null,"script":"s"},{"description":"d"}]"#)),
        vec!["Available commands:", "  a: s", "  -: d"]
    );
    assert!(commands_lines(&json("{}")).is_empty());
    assert_eq!(
        status_lines(&json(r#"{"running":true,"pid":42,"adapter":"mock"}"#)),
        vec!["Status: running", "PID: 42", "Adapter: mock"]
    );
    assert_eq!(status_lines(&JsonValue::Null), vec!["Status: running"]);
}
