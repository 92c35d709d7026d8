use middlesox::capability::AccessMode;
use middlesox::json::parse_json;
use middlesox::names::NameSet;
use middlesox::protocol::{frame, Event, Request, Response};
use middlesox::socket::{
    access_mode, bridge_timed_out, capability_from, check_response, check_subscription,
    event_message, manifest_from_reply, raw_event, subscription_timed_out, CapabilityInfo,
    SocketAdapter, BRIDGE_CMD_TIMEOUT_SECS, SUBSCRIBE_TIMEOUT_SECS,
};
use middlesox::value::JsonValue;

fn json(text: &str) -> JsonValue {
    parse_json(text).unwrap()
}

#[test]
fn test_from_base_path() {
    let adapter = SocketAdapter::from_base_path("/run/user/1000/msx-hyprland");
    assert_eq!(adapter.cmd_socket(), "/run/user/1000/msx-hyprland.sock");
    assert_eq!(adapter.event_socket(), "/run/user/1000/msx-hyprland-events.sock");
}

#[test]
fn test_request_serialization() {
    let req = Request::get(1, "workspace");
    let json = req.encode();
    assert!(json.contains("\"id\":1"));
    assert!(json.contains("\"method\":\"get\""));
    assert!(json.contains("\"key\":\"workspace\""));
}

#[test]
fn test_response_success() {
    let resp = Response::success(1, json(r#"{"id": 2}"#));
    let json = resp.encode();
    assert!(json.contains("\"id\":1"));
    assert!(json.contains("\"result\""));
    assert!(!json.contains("\"error\""));
}

#[test]
fn test_response_error() {
    let resp = Response::error(1, "not found");
    let json = resp.encode();
    assert!(json.contains("\"error\":\"not found\""));
}

#[test]
fn test_event_serialization() {
    let event = Event::new("workspace_change")
        .with_prev(json(r#"{"id": 1}"#))
        .with_curr(json(r#"{"id": 2}"#));
    let json = event.encode();
    assert!(json.contains("\"event\":\"workspace_change\""));
    assert!(json.contains("\"prev\""));
    assert!(json.contains("\"curr\""));
}

#[test]
fn messages_word_for_word() {
    assert_eq!(
        Request::get(1, "workspace").encode(),
        r#"{"id":1,"method":"get","params":{"key":"workspace"}}"#
    );
    assert_eq!(
        Request::set(2, "layout", JsonValue::text("grid")).encode(),
        r#"{"id":2,"method":"set","params":{"key":"layout","value":"grid"}}"#
    );
    assert_eq!(Request::caps(3).encode(), r#"{"id":3,"method":"caps"}"#);
    assert_eq!(
        Request::subscribe(4, &vec!["a".into(), "b".into()]).encode(),
        r#"{"id":4,"method":"subscribe","params":{"events":["a","b"]}}"#
    );
    assert_eq!(Response::success(u64::MAX, JsonValue::Null).encode(),
        r#"{"id":18446744073709551615,"result":null}"#);
    assert_eq!(Response::error(7, "a \"b\"\n").encode(), r#"{"id":7,"error":"a \"b\"\n"}"#);
    assert_eq!(Event::new("focus").encode(), r#"{"event":"focus"}"#);
    assert_eq!(
        Event::new("focus").with_curr(json(r#"{"b":1,"a":2}"#)).encode(),
        r#"{"event":"focus","curr":{"a":2,"b":1}}"#
    );
}

#[test]
fn every_message_is_one_line() {
    let request = Request::set(9, "tit\nle", JsonValue::text("a\nb"));
    let line = frame(&request.encode());
    assert_eq!(line.matches('\n').count(), 1);
    assert!(line.ends_with('\n'));
    let back = json(line.trim());
    assert_eq!(back.member("id"), JsonValue::unsigned(9));
    assert_eq!(back.member("params").member("key"), JsonValue::text("tit\nle"));
    assert_eq!(back.member("params").member("value"), JsonValue::text("a\nb"));
}

#[test]
fn responses_are_checked() {
    assert_eq!(
        check_response(1, Response::success(1, JsonValue::signed(2))),
        Ok(JsonValue::signed(2))
    );
    assert_eq!(
        check_response(1, Response { id: 1, result: None, error: None }),
        Ok(JsonValue::Null)
    );
    assert_eq!(
        check_response(1, Response::success(2, JsonValue::Null)),
        Err("Response ID mismatch: expected 1, got 2".to_string())
    );
    assert_eq!(
        check_response(3, Response::error(3, "unknown key")),
        Err("Bridge error: unknown key".to_string())
    );
    assert_eq!(check_subscription(&Response::success(5, JsonValue::Null)), Ok(()));
    assert_eq!(
        check_subscription(&Response::error(0, "no")),
        Err("Bridge rejected subscription: no".to_string())
    );
}

#[test]
fn requests_are_numbered_from_one() {
    let mut adapter = SocketAdapter::new("/c", "/e");
    assert_eq!(adapter.name(), "socket");
    assert!(adapter.needs_caps());
    assert!(adapter.manifest().is_empty());
    assert_eq!(adapter.caps_request().encode(), r#"{"id":1,"method":"caps"}"#);
    assert_eq!(
        adapter.take_caps(&JsonValue::Null),
        Err("Invalid capabilities response".to_string())
    );
    assert!(adapter.needs_caps());
    assert_eq!(adapter.take_caps(&json(r#"[{"name":"w","access":"RW"}]"#)), Ok(()));
    assert!(!adapter.needs_caps());
    assert!(adapter.manifest().find("w").unwrap().is_writable());
    assert_eq!(
        adapter.get_request("w").encode(),
        r#"{"id":2,"method":"get","params":{"key":"w"}}"#
    );
    assert_eq!(
        adapter.set_request("w", JsonValue::signed(-4)).encode(),
        r#"{"id":3,"method":"set","params":{"key":"w","value":-4}}"#
    );
    assert_eq!(BRIDGE_CMD_TIMEOUT_SECS, 10);
    assert_eq!(SUBSCRIBE_TIMEOUT_SECS, 15);
}

#[test]
fn the_subscription_has_the_number_zero() {
    let mut events = NameSet::new();
    events.insert("focus_change");
    events.insert("tag_change");
    events.insert("focus_change");
    let request = SocketAdapter::new("/c", "/e").subscribe_request(&events);
    assert_eq!(
        request.encode(),
        r#"{"id":0,"method":"subscribe","params":{"events":["focus_change","tag_change"]}}"#
    );
    assert_eq!(bridge_timed_out(), "Bridge did not respond within 10s");
    assert_eq!(subscription_timed_out(), "Subscribe handshake timed out after 15s");
}

#[test]
fn access_words_in_any_case() {
    let info = |access: &str| CapabilityInfo {
        name: "layout".into(),
        access: access.into(),
        description: Some("how".into()),
    };
    for word in ["rw", "RW", "read_write", "ReadWrite", "READWRITE"] {
        assert_eq!(access_mode(&word.to_lowercase()), AccessMode::ReadWrite);
        assert!(capability_from(&info(word)).is_writable());
    }
    for word in ["ro", "read_only", "ReadOnly", "write", "", "r w"] {
        assert_eq!(access_mode(&word.to_lowercase()), AccessMode::ReadOnly);
        assert!(!capability_from(&info(word)).is_writable());
    }
    let cap = capability_from(&info("Rw"));
    assert_eq!(cap.name, "layout");
    assert_eq!(cap.description.as_deref(), Some("how"));
}

#[test]
fn manifests_of_bridges() {
    let manifest = manifest_from_reply(&json(
        r#"[{"name":"a","access":"rw","description":"x"},{"name":"b","access":"?","more":1},
            {"name":"c","access":"ro","description":null}]"#,
    ))
    .unwrap();
    assert_eq!(manifest.len(), 3);
    assert!(manifest.find("a").unwrap().is_writable());
    assert_eq!(manifest.find("a").unwrap().description.as_deref(), Some("x"));
    assert!(!manifest.find("b").unwrap().is_writable());
    assert!(manifest.find("c").unwrap().description.is_none());
    for text in ["null", "{}", "[1]", r#"[{"name":"a"}]"#, r#"[{"name":1,"access":"rw"}]"#,
        r#"[{"name":"a","access":"rw","description":1}]"#] {
        assert_eq!(
            manifest_from_reply(&json(text)).unwrap_err(),
            "Invalid capabilities response"
        );
    }
}

#[test]
fn events_of_bridges() {
    let event = raw_event(Event::new("focus").with_curr(json(r#"{"title":"Firefox"}"#)));
    assert_eq!(event.name, "focus");
    assert!(event.prev.is_none());
    assert_eq!(event.get_curr_str("title"), Some("Firefox"));
    let odd = raw_event(Event::new("x").with_prev(JsonValue::signed(1)));
    assert!(odd.prev.unwrap().is_empty());
    assert_eq!(event_message("  {\"event\":\"x\"} \r\n"), Some("{\"event\":\"x\"}"));
    assert_eq!(event_message(" \n"), None);
}
