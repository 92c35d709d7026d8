use middlesox::capability::AccessMode;
use middlesox::event::RawEvent;
use middlesox::hyprland::{
    choose_socket_dir, cmd_socket, command_timed_out, dispatch_reply, dispatch_request,
    event_socket, fullscreen_as_bool, get_query, get_reply, get_value, init_reply, manifest,
    query_reply, query_request, set_step, socket_dir_candidates, toggle_reply, toggle_step,
    EventReader, EventTranslator, SetStep, Toggle,
};
use middlesox::json::parse_json;
use middlesox::names::NameSet;
use middlesox::value::JsonValue;

fn translate(translator: &mut EventTranslator, line: &str) -> Option<RawEvent> {
    translator.translate(line)
}

fn json(text: &str) -> JsonValue {
    parse_json(text).unwrap()
}

#[test]
fn workspace_change_tracks_prev_state() {
    let mut t = EventTranslator::default();

    let first = translate(&mut t, "workspacev2>>2,web").unwrap();
    assert_eq!(first.name, "workspace_change");
    assert_eq!(first.get_prev_i64("id"), Some(0));
    assert_eq!(first.get_curr_i64("id"), Some(2));
    assert_eq!(first.get_curr_str("name"), Some("web"));

    let second = translate(&mut t, "workspacev2>>5,mail").unwrap();
    assert_eq!(second.get_prev_i64("id"), Some(2));
    assert_eq!(second.get_prev_str("name"), Some("web"));
    assert_eq!(second.get_curr_i64("id"), Some(5));
}

#[test]
fn focus_change_maps_class_to_appid_and_keeps_commas_in_title() {
    let mut t = EventTranslator::default();

    let event = translate(&mut t, "activewindow>>kitty,vim: a,b,c.txt").unwrap();
    assert_eq!(event.name, "focus_change");
    assert_eq!(event.get_curr_str("appid"), Some("kitty"));
    assert_eq!(event.get_curr_str("title"), Some("vim: a,b,c.txt"));

    let next = translate(&mut t, "activewindow>>firefox,Mozilla Firefox").unwrap();
    assert_eq!(next.get_prev_str("appid"), Some("kitty"));
    assert_eq!(next.get_prev_str("title"), Some("vim: a,b,c.txt"));
}

#[test]
fn submap_reset_produces_empty_keymode() {
    let mut t = EventTranslator::default();

    let enter = translate(&mut t, "submap>>resize").unwrap();
    assert_eq!(enter.name, "keymode_change");
    assert_eq!(enter.get_curr_str("keymode"), Some("resize"));

    let exit = translate(&mut t, "submap>>").unwrap();
    assert_eq!(exit.get_prev_str("keymode"), Some("resize"));
    assert_eq!(exit.get_curr_str("keymode"), Some(""));
}

#[test]
fn fullscreen_and_layout_events() {
    let mut t = EventTranslator::default();

    let fs = translate(&mut t, "fullscreen>>1").unwrap();
    assert_eq!(fs.name, "window_state_change");
    assert_eq!(fs.get_prev("fullscreen"), Some(&JsonValue::Bool(false)));
    assert_eq!(fs.get_curr("fullscreen"), Some(&JsonValue::Bool(true)));

    let layout = translate(&mut t, "activelayout>>at-keyboard,German").unwrap();
    assert_eq!(layout.name, "keyboard_layout_change");
    assert_eq!(layout.get_curr_str("kb_layout"), Some("German"));
}

#[test]
fn open_close_window_events() {
    let mut t = EventTranslator::default();

    let open = translate(&mut t, "openwindow>>abc123,web,kitty,tmux, split").unwrap();
    assert_eq!(open.name, "window_open");
    assert_eq!(open.get_curr_str("address"), Some("abc123"));
    assert_eq!(open.get_curr_str("workspace"), Some("web"));
    assert_eq!(open.get_curr_str("appid"), Some("kitty"));
    assert_eq!(open.get_curr_str("title"), Some("tmux, split"));

    let close = translate(&mut t, "closewindow>>abc123").unwrap();
    assert_eq!(close.name, "window_close");
    assert_eq!(close.get_prev_str("address"), Some("abc123"));
}

#[test]
fn malformed_and_unknown_lines_are_ignored() {
    let mut t = EventTranslator::default();

    assert!(translate(&mut t, "not an event line").is_none());
    assert!(translate(&mut t, "somenewevent>>data").is_none());
    assert!(translate(&mut t, "workspacev2>>notanumber,name").is_none());
    assert!(translate(&mut t, "workspacev2>>missing-comma").is_none());
    // The older form of an event is ignored where a newer one is emitted too
    assert!(translate(&mut t, "workspace>>web").is_none());
}

#[test]
fn transitions_that_change_nothing_are_not_reported() {
    let mut t = EventTranslator::default();

    // What is known at the start is reported as it is
    assert!(translate(&mut t, "submap>>").is_none());
    assert!(translate(&mut t, "fullscreen>>0").is_none());

    for line in [
        "workspacev2>>2,web",
        "activewindow>>kitty,vim",
        "fullscreen>>1",
        "submap>>resize",
        "activelayout>>at-keyboard,German",
    ] {
        assert!(translate(&mut t, line).is_some());
        assert!(translate(&mut t, line).is_none());
    }

    // One changed member is enough
    let renamed = translate(&mut t, "workspacev2>>2,mail").unwrap();
    assert_eq!(renamed.get_prev_str("name"), Some("web"));
    let retitled = translate(&mut t, "activewindow>>kitty,top").unwrap();
    assert_eq!(retitled.get_prev_str("title"), Some("vim"));
    // Another keyboard with the same layout
    assert!(translate(&mut t, "activelayout>>other,German").is_none());
    // The workspace of a focused output may have changed
    assert!(translate(&mut t, "focusedmon>>DP-1,web").is_some());
    assert!(translate(&mut t, "focusedmon>>DP-1,mail").is_some());
    // A line that is repeated tells of nothing
    assert!(translate(&mut t, "focusedmon>>DP-1,mail").is_none());
    let back = translate(&mut t, "focusedmon>>DP-2,mail").unwrap();
    assert_eq!(back.get_prev_str("output"), Some("DP-1"));
}

#[test]
fn fullscreen_field_accepts_bool_and_int() {
    assert!(fullscreen_as_bool(&JsonValue::Bool(true)));
    assert!(!fullscreen_as_bool(&JsonValue::Bool(false)));
    assert!(fullscreen_as_bool(&JsonValue::signed(2)));
    assert!(!fullscreen_as_bool(&JsonValue::signed(0)));
    assert!(!fullscreen_as_bool(&JsonValue::Null));
}

#[test]
fn monitor_and_workspace_lifetimes() {
    let mut t = EventTranslator::new();

    let focus = translate(&mut t, "focusedmon>>DP-1,web").unwrap();
    assert_eq!(focus.name, "output_focus");
    assert_eq!(focus.get_prev_str("output"), Some(""));
    assert_eq!(focus.get_curr_str("output"), Some("DP-1"));
    assert_eq!(focus.get_curr_str("workspace"), Some("web"));

    let create = translate(&mut t, "createworkspacev2>>3,mail").unwrap();
    assert_eq!(create.name, "workspace_create");
    assert!(create.prev.is_none());
    assert_eq!(create.get_curr_i64("id"), Some(3));

    let destroy = translate(&mut t, "destroyworkspacev2>>3,mail").unwrap();
    assert_eq!(destroy.name, "workspace_destroy");
    assert!(destroy.curr.is_none());
    assert_eq!(destroy.get_prev_str("name"), Some("mail"));

    let added = translate(&mut t, "monitoradded>>DP-2").unwrap();
    assert_eq!(added.name, "output_add");
    let removed = translate(&mut t, "monitorremoved>>DP-2").unwrap();
    assert_eq!(removed.name, "output_remove");
    assert_eq!(removed.get_prev_str("output"), Some("DP-2"));

    assert!(translate(&mut t, "openwindow>>abc,web,kitty").is_none());
    assert!(translate(&mut t, "createworkspacev2>>x,mail").is_none());
}

#[test]
fn prev_is_the_last_curr_across_other_events() {
    let mut t = EventTranslator::new();
    let first = translate(&mut t, "workspacev2>>2,web").unwrap();
    for line in ["submap>>resize", "garbage", "activewindow>>a,b", "workspace>>x"] {
        let _ = translate(&mut t, line);
    }
    let second = translate(&mut t, "workspacev2>>-99,special:x").unwrap();
    assert_eq!(second.prev, first.curr);
    assert_eq!(second.get_curr_i64("id"), Some(-99));
}

#[test]
fn unsubscribed_events_still_teach_the_reader() {
    let mut subscriptions = NameSet::new();
    subscriptions.insert("keymode_change");
    let mut reader = EventReader::new(subscriptions.clone());
    assert!(reader.take_line("workspacev2>>2,web").is_none());
    let event = reader.take_line("submap>>a").unwrap();
    assert_eq!(event.get_prev_str("keymode"), Some(""));
    let event = reader.take_line("submap>>b").unwrap();
    assert_eq!(event.get_prev_str("keymode"), Some("a"));
}

#[test]
fn answers_that_are_no_use() {
    assert_eq!(
        get_reply("title", "oops"),
        Err("Invalid JSON from Hyprland for 'activewindow': oops".to_string())
    );
    assert_eq!(
        get_reply("output", r#"[{"name":"DP-1","focused":false}]"#),
        Err("No focused monitor reported by Hyprland".to_string())
    );
    assert_eq!(get_reply("outputs", "{}"), Ok(JsonValue::Array(vec![])));
    assert_eq!(get_reply("outputs", r#"[{"name":1},{"name":"X"}]"#), Ok(json(r#"["X"]"#)));
    assert_eq!(get_reply("workspaces", "null"), Ok(JsonValue::Array(vec![])));
    assert_eq!(get_reply("client_count", "null"), Ok(JsonValue::unsigned(0)));
    assert_eq!(get_value("nope", &JsonValue::Null), Err("Unknown key: nope".to_string()));
    assert_eq!(query_reply("x", "[1]"), Ok(json("[1]")));
}

#[test]
fn dispatch_answers() {
    assert_eq!(dispatch_reply("workspace 1", "ok"), Ok(()));
    assert_eq!(dispatch_reply("workspace 1", " ok\n"), Ok(()));
    assert_eq!(
        dispatch_reply("workspace 1", "no such workspace"),
        Err("Hyprland dispatch 'workspace 1' failed: no such workspace".to_string())
    );
    assert_eq!(command_timed_out(), "Hyprland did not respond within 10s");
}

#[test]
fn sockets_are_discovered() {
    let dirs = socket_dir_candidates(Some("abc"), Some("/run/user/1000")).unwrap();
    assert_eq!(dirs, vec!["/run/user/1000/hypr/abc", "/tmp/hypr/abc"]);
    assert_eq!(choose_socket_dir("abc", &dirs, &vec![false, true]), Ok("/tmp/hypr/abc".to_string()));
    assert_eq!(
        choose_socket_dir("abc", &dirs, &vec![true, true]),
        Ok("/run/user/1000/hypr/abc".to_string())
    );
    assert_eq!(
        choose_socket_dir("abc", &dirs, &vec![false, false]),
        Err("Hyprland socket not found for instance 'abc' (checked $XDG_RUNTIME_DIR/hypr and /tmp/hypr)".to_string())
    );
    assert_eq!(socket_dir_candidates(Some("abc"), None).unwrap(), vec!["/tmp/hypr/abc"]);
    assert_eq!(
        socket_dir_candidates(None, None),
        Err("HYPRLAND_INSTANCE_SIGNATURE is not set - is Hyprland running? (set [adapter] socket_dir to override)".to_string())
    );
    assert_eq!(cmd_socket("/x"), "/x/.socket.sock");
    assert_eq!(event_socket("/x/"), "/x/.socket2.sock");
}

#[test]
fn hyprland_manifest_lists_its_keys() {
    let m = manifest();
    assert_eq!(m.len(), 10);
    for cap in m.iter() {
        assert!(get_query(&cap.name).is_ok(), "{}", cap.name);
    }
    assert_eq!(m.find("floating").map(|c| c.access), Some(AccessMode::ReadWrite));
    assert_eq!(m.find("title").map(|c| c.access), Some(AccessMode::ReadOnly));
}

/// Hyprland as the adapter sees it: it answers `j/` queries with canned JSON and
/// keeps every request.
struct FakeHyprland {
    requests: Vec<String>,
    active_window: String,
}

impl FakeHyprland {
    fn start() -> Self {
        FakeHyprland {
            requests: Vec::new(),
            active_window:
                r#"{"class":"kitty","title":"Terminal","floating":false,"fullscreen":false}"#.into(),
        }
    }

    fn send(&mut self, request: String) -> String {
        self.requests.push(request.clone());
        if request.starts_with("dispatch ") {
            return "ok".into();
        }
        match request.strip_prefix("j/").unwrap_or(&request) {
            "version" => r#"{"tag":"v0.45.0"}"#.into(),
            "activeworkspace" => r#"{"id":3,"name":"3","monitor":"DP-1"}"#.into(),
            "activewindow" => self.active_window.clone(),
            "monitors" => {
                r#"[{"name":"DP-1","focused":true},{"name":"DP-2","focused":false}]"#.into()
            }
            "workspaces" => {
                r#"[{"id":1,"name":"1","monitor":"DP-2"},{"id":3,"name":"3","monitor":"DP-1"}]"#
                    .into()
            }
            "clients" => r#"[{"class":"kitty"},{"class":"firefox"}]"#.into(),
            other => format!("unknown request: {}", other),
        }
    }

    fn init(&mut self) -> Result<String, String> {
        let response = self.send(query_request("version"));
        init_reply(&response)
    }

    fn get(&mut self, key: &str) -> Result<JsonValue, String> {
        let query = get_query(key)?;
        let response = self.send(query_request(query));
        get_reply(key, &response)
    }

    fn dispatch(&mut self, args: &str) -> Result<(), String> {
        let response = self.send(dispatch_request(args));
        dispatch_reply(args, &response)
    }

    fn set(&mut self, key: &str, value: JsonValue) -> Result<(), String> {
        match set_step(key, &value)? {
            SetStep::Dispatch(args) => self.dispatch(&args),
            SetStep::ToggleTo(toggle, want) => {
                let response = self.send(query_request("activewindow"));
                match toggle_reply(toggle, want, &response)? {
                    Some(args) => self.dispatch(args),
                    None => Ok(()),
                }
            }
        }
    }
}

#[test]
fn init_queries_version() {
    let mut fake = FakeHyprland::start();

    assert_eq!(fake.init(), Ok("v0.45.0".to_string()));

    assert_eq!(fake.requests, vec!["j/version"]);
}

#[test]
fn get_reads_hyprland_state() {
    let mut adapter = FakeHyprland::start();

    assert_eq!(adapter.get("workspace").unwrap(), json("3"));
    assert_eq!(adapter.get("workspace_name").unwrap(), json("\"3\""));
    assert_eq!(adapter.get("title").unwrap(), json("\"Terminal\""));
    assert_eq!(adapter.get("appid").unwrap(), json("\"kitty\""));
    assert_eq!(adapter.get("fullscreen").unwrap(), json("false"));
    assert_eq!(adapter.get("floating").unwrap(), json("false"));
    assert_eq!(adapter.get("output").unwrap(), json("\"DP-1\""));
    assert_eq!(adapter.get("outputs").unwrap(), json(r#"["DP-1", "DP-2"]"#));
    assert_eq!(adapter.get("client_count").unwrap(), json("2"));
    assert_eq!(
        adapter.get("workspaces").unwrap(),
        json(r#"[{"id": 1, "name": "1"}, {"id": 3, "name": "3"}]"#)
    );

    assert!(adapter.get("nonsense").is_err());
}

#[test]
fn get_handles_no_focused_window() {
    let mut adapter = FakeHyprland::start();
    adapter.active_window = "{}".into();

    assert_eq!(adapter.get("title").unwrap(), json("\"\""));
    assert_eq!(adapter.get("appid").unwrap(), json("\"\""));
    assert_eq!(adapter.get("fullscreen").unwrap(), json("false"));
}

#[test]
fn set_sends_expected_dispatches() {
    let mut adapter = FakeHyprland::start();

    adapter.set("workspace", json("5")).unwrap();
    adapter.set("workspace", json("\"web\"")).unwrap();

    // The window is not fullscreen: setting true toggles, setting false does not
    adapter.set("fullscreen", json("true")).unwrap();
    adapter.set("fullscreen", json("false")).unwrap();

    // The window does not float: setting true toggles
    adapter.set("floating", json("true")).unwrap();

    let dispatches: Vec<String> = adapter
        .requests
        .iter()
        .filter(|r| r.starts_with("dispatch "))
        .cloned()
        .collect();
    assert_eq!(
        dispatches,
        vec![
            "dispatch workspace 5",
            "dispatch workspace web",
            "dispatch fullscreen 0",
            "dispatch togglefloating",
        ]
    );

    // Other keys are refused without a request
    let sent = adapter.requests.len();
    assert!(adapter.set("title", json("\"nope\"")).is_err());
    assert!(adapter.set("nonsense", json("1")).is_err());
    assert_eq!(adapter.requests.len(), sent);
}

#[test]
fn events_are_translated_and_filtered_by_subscription() {
    let mut subscriptions = NameSet::new();
    subscriptions.insert("workspace_change");
    subscriptions.insert("focus_change");
    let mut reader = EventReader::new(subscriptions);

    let mut events = Vec::new();
    for line in [
        "workspacev2>>2,web\n",
        "fullscreen>>1\n",
        "garbage line without separator\n",
        "activewindow>>firefox,Mozilla Firefox\n",
        "workspacev2>>3,term\n",
        "\n",
    ] {
        events.extend(reader.take_line(line));
    }
    assert_eq!(events.len(), 3);

    let first = &events[0];
    assert_eq!(first.name, "workspace_change");
    assert_eq!(first.get_curr_i64("id"), Some(2));
    assert_eq!(first.get_curr_str("name"), Some("web"));

    let second = &events[1];
    assert_eq!(second.name, "focus_change");
    assert_eq!(second.get_curr_str("appid"), Some("firefox"));
    assert_eq!(second.get_curr_str("title"), Some("Mozilla Firefox"));

    // the previous state is carried across events
    let third = &events[2];
    assert_eq!(third.name, "workspace_change");
    assert_eq!(third.get_prev_i64("id"), Some(2));
    assert_eq!(third.get_prev_str("name"), Some("web"));
    assert_eq!(third.get_curr_i64("id"), Some(3));
}

#[test]
fn set_refuses_other_types() {
    let err = |key: &str, value: JsonValue| set_step(key, &value).unwrap_err();
    assert_eq!(err("title", JsonValue::text("nope")), "Cannot set 'title' (read-only or unknown)");
    assert_eq!(err("workspace", JsonValue::Null), "workspace must be a number or string");
    assert_eq!(err("fullscreen", JsonValue::text("yes")), "fullscreen must be a boolean");
    assert_eq!(err("floating", JsonValue::signed(1)), "floating must be a boolean");
    assert!(matches!(
        set_step("workspace", &JsonValue::signed(-1)),
        Ok(SetStep::Dispatch(args)) if args == "workspace -1"
    ));
    assert!(matches!(
        set_step("floating", &JsonValue::Bool(true)),
        Ok(SetStep::ToggleTo(Toggle::Floating, true))
    ));
}

#[test]
fn toggles_reach_what_is_wanted() {
    let tiled = r#"{"fullscreen":0,"floating":false}"#;
    assert_eq!(toggle_reply(Toggle::Fullscreen, true, tiled), Ok(Some("fullscreen 0")));
    assert_eq!(toggle_reply(Toggle::Fullscreen, false, tiled), Ok(None));
    assert_eq!(toggle_reply(Toggle::Floating, true, tiled), Ok(Some("togglefloating")));
    assert_eq!(toggle_reply(Toggle::Floating, false, tiled), Ok(None));
    assert!(toggle_reply(Toggle::Floating, false, "?").is_err());
    let full = json(r#"{"fullscreen":true}"#);
    assert_eq!(toggle_step(Toggle::Fullscreen, false, &full), Some("fullscreen 0"));
}

#[test]
fn versions_that_are_no_use() {
    assert_eq!(init_reply("{}"), Ok("(unknown version)".to_string()));
    assert_eq!(
        init_reply("no json"),
        Err("Failed to query Hyprland version - is Hyprland running?".to_string())
    );
}
