use middlesox::config::{
    adapter_from_options, config_candidates, config_candidates_in, default_log_level,
    default_scripts_dir, expand_path, scripts_dir_in, socket_paths_from_options, AdapterConfig,
    Config, SocketAdapterConfig, Watch,
};
use middlesox::json::parse_json;
use middlesox::paths::{
    choose_first, expand_path_in, file_extension, is_absolute, join_path, resolve_script_path,
    resolve_scripts_dir,
};
use middlesox::value::{JsonValue, StateMap};

fn state(text: &str) -> StateMap {
    match parse_json(text) {
        Some(JsonValue::Object(map)) => map,
        _ => panic!("an object is needed"),
    }
}

#[test]
fn test_parse_config() {
    let toml = r#"
[settings]
scripts_dir = "scripts"

[adapter]
name = "mock"

[[watch]]
event = "workspace_change"
exec = "wallpaper.rhai"
description = "Change wallpaper on workspace switch"

[watch.prev]
id = 1

[watch.curr]
id = 2

# Script watch (no conditions)
[[watch]]
event = "layout_change"
exec = "smart_layout.rhai"

[[command]]
name = "toggle_layout"
script = "toggle_layout.rhai"
"#;

    let config = Config::parse(toml).unwrap();
    assert!(matches!(config.adapter, AdapterConfig::Mock));
    assert_eq!(config.adapter.name(), "mock");
    assert_eq!(config.watch.len(), 2);
    assert_eq!(config.watch[0].event, "workspace_change");
    assert_eq!(config.watch[0].prev.get("id"), Some(&JsonValue::signed(1)));
    assert_eq!(config.watch[1].event, "layout_change");
    assert!(config.watch[1].prev.is_empty()); // No conditions = script watch
    assert_eq!(config.command.len(), 1);
    assert_eq!(config.command[0].name, "toggle_layout");
}

#[test]
fn test_parse_socket_adapter_explicit() {
    let toml = r#"
[adapter]
name = "socket"
cmd_socket = "/run/user/1000/bridge.sock"
event_socket = "/run/user/1000/bridge-events.sock"
"#;

    let config = Config::parse(toml).unwrap();
    assert_eq!(config.adapter.name(), "socket");

    if let AdapterConfig::Socket(socket_cfg) = &config.adapter {
        let (cmd, event) = socket_cfg.socket_paths();
        assert_eq!(cmd, "/run/user/1000/bridge.sock");
        assert_eq!(event, "/run/user/1000/bridge-events.sock");
    } else {
        panic!("Expected Socket adapter");
    }
}

#[test]
fn test_parse_socket_adapter_base_path() {
    let toml = r#"
[adapter]
name = "socket"
base_path = "/run/user/1000/bridge"
"#;

    let config = Config::parse(toml).unwrap();
    assert_eq!(config.adapter.name(), "socket");

    if let AdapterConfig::Socket(socket_cfg) = &config.adapter {
        let (cmd, event) = socket_cfg.socket_paths();
        assert_eq!(cmd, "/run/user/1000/bridge.sock");
        assert_eq!(event, "/run/user/1000/bridge-events.sock");
    } else {
        panic!("Expected Socket adapter");
    }
}

#[test]
fn test_parse_hyprland_adapter() {
    let toml = r#"
[adapter]
name = "hyprland"
"#;

    let config = Config::parse(toml).unwrap();
    assert!(matches!(config.adapter, AdapterConfig::Hyprland { .. }));
    assert_eq!(config.adapter.name(), "hyprland");
}

#[test]
fn test_watch_matching() {
    let watch = Watch {
        event: "workspace_change".into(),
        script: "test.rhai".into(),
        prev: state(r#"{"id":1}"#),
        curr: state(r#"{"id":2}"#),
        description: None,
        enabled: true,
    };

    let prev = state(r#"{"id":1}"#);
    let curr = state(r#"{"id":2}"#);
    assert!(watch.matches(&prev, &curr));

    // Wrong prev
    let prev = state(r#"{"id":3}"#);
    assert!(!watch.matches(&prev, &curr));
}

#[test]
fn test_subscribed_events() {
    let toml = r#"
[[watch]]
event = "workspace_change"
exec = "test.rhai"

[[watch]]
event = "focus_change"
exec = "focus.rhai"

[[watch]]
event = "workspace_change"
exec = "ws.rhai"
"#;

    let config = Config::parse(toml).unwrap();
    let events = config.subscribed_events();
    assert_eq!(events.len(), 2);
    assert!(events.contains("workspace_change"));
    assert!(events.contains("focus_change"));
}

#[test]
fn an_empty_file_is_a_configuration() {
    let config = Config::parse("").unwrap();
    assert_eq!(config.adapter.name(), "mock");
    assert_eq!(config.settings.log_level, "info");
    assert_eq!(config.settings.scripts_dir, default_scripts_dir());
    assert!(config.settings.script_env.pairs().is_empty());
    assert!(config.watch.is_empty());
    assert!(config.command.is_empty());
}

#[test]
fn the_documented_file_is_a_configuration() {
    let toml = r#"
[settings]
scripts_dir = "scripts" # relative to this config file
log_level = "debug"
script_env = { PATH = "/bin", LANG = "C" }

[adapter]
name = "mangowc"

[[watch]]
event = "workspace_change"
exec = "wallpaper.rhai"
description = "Change wallpaper when switching to workspace 2"
curr = { id = 2 }

[[watch]]
event = "focus_change"
exec = "on_focus.sh"
enabled = false

[[command]]
name = "cycle_layout"
script = "cycle_layout.rhai"
description = "Cycle through available layouts"

[unknown]
ignored = true
"#;
    let config = Config::parse(toml).unwrap();
    assert_eq!(config.settings.log_level, "debug");
    assert_eq!(config.settings.script_env.get("LANG"), Some("C"));
    assert_eq!(config.adapter.name(), "mangowc");
    assert!(config.watch[0].enabled);
    assert_eq!(config.watch[0].curr.get("id"), Some(&JsonValue::signed(2)));
    assert!(!config.watch[1].enabled);
    assert_eq!(
        config.command[0].description.as_deref(),
        Some("Cycle through available layouts")
    );
    assert_eq!(config.subscribed_events().to_vec(), &vec!["workspace_change"]);
    assert!(config.watches_for_event("focus_change").is_empty());
    assert_eq!(config.watches_for_event("workspace_change")[0].script, "wallpaper.rhai");
    assert_eq!(config.command_by_name("cycle_layout").unwrap().script, "cycle_layout.rhai");
    assert!(config.command_by_name("other").is_none());
}

#[test]
fn files_that_are_refused() {
    let socket = "Socket adapter requires 'cmd_socket'+'event_socket' or 'base_path' in [adapter]";
    for (toml, reason) in [
        ("[adapter]\nname = \"other\"", "Unknown adapter: 'other'"),
        ("[adapter]\nname = 1", "expected a string for `name` in `adapter`"),
        ("[adapter]", "missing field `name` in `adapter`"),
        ("adapter = 1", "expected a table in `adapter`"),
        ("adapter = []", "expected one item in `adapter`"),
        ("[adapter]\nname = \"socket\"", socket),
        ("[settings]\nlog_level = 1", "expected a string for `log_level` in `settings`"),
        ("settings = 1", "expected a table in `settings`"),
        (
            "[settings]\nscript_env = { A = 1 }",
            "expected a table of strings for `script_env` in `settings`",
        ),
        ("[[watch]]\nevent = \"x\"", "missing field `exec` in `watch`"),
        ("[[watch]]\nexec = \"x\"", "missing field `event` in `watch`"),
        (
            "[[watch]]\nevent = \"x\"\nexec = \"y\"\nenabled = \"no\"",
            "expected a boolean for `enabled` in `watch`",
        ),
        (
            "[[watch]]\nevent = \"x\"\nexec = \"y\"\ncurr = 1",
            "expected a table for `curr` in `watch`",
        ),
        ("watch = [[\"x\"]]", "too few items in `watch`"),
        ("[[command]]\nname = \"x\"", "missing field `script` in `command`"),
        (
            "[[command]]\nname = \"x\"\nscript = \"y\"\ndescription = 1",
            "expected a string for `description` in `command`",
        ),
        ("watch = 1", "expected a list for `watch`"),
    ] {
        assert_eq!(
            Config::parse(toml).unwrap_err(),
            format!("Failed to parse TOML config: {reason}"),
            "{toml}"
        );
    }
    // What is no TOML tells where
    for (toml, line) in [("[adapter", "line 1"), ("a = 1\na = 2", "line 2")] {
        let error = Config::parse(toml).unwrap_err();
        assert!(error.starts_with("Failed to parse TOML config: "), "{error}");
        assert!(error.contains(line), "{error}");
    }
}

#[test]
fn all_conditions_must_hold() {
    let watch = Watch {
        event: "e".into(),
        script: "s".into(),
        prev: StateMap::new(),
        curr: state(r#"{"id":2,"name":"web"}"#),
        description: None,
        enabled: true,
    };
    let none = StateMap::new();
    assert!(watch.matches(&none, &state(r#"{"id":2,"name":"web","more":1}"#)));
    assert!(!watch.matches(&none, &state(r#"{"id":2}"#)));
    assert!(!watch.matches(&none, &state(r#"{"id":2,"name":"mail"}"#)));
    assert!(!watch.matches(&none, &state(r#"{"id":2.0,"name":"web"}"#)));
    let free = Watch { curr: StateMap::new(), ..watch };
    assert!(free.matches(&none, &none));
}

#[test]
fn adapters_by_name_and_options() {
    let none = StateMap::new();
    assert_eq!(adapter_from_options("mock", &none).unwrap().name(), "mock");
    assert_eq!(adapter_from_options("mangowc", &none).unwrap().name(), "mangowc");
    assert!(matches!(
        adapter_from_options("hyprland", &state(r#"{"socket_dir":"/x"}"#)),
        Ok(AdapterConfig::Hyprland { socket_dir: Some(dir) }) if dir == "/x"
    ));
    assert_eq!(adapter_from_options("sway", &none).unwrap_err(), "Unknown adapter: 'sway'");
    assert_eq!(
        socket_paths_from_options(&none),
        Err("Socket adapter requires 'cmd_socket'+'event_socket' or 'base_path' in [adapter]"
            .to_string())
    );
    assert_eq!(
        socket_paths_from_options(&state(r#"{"cmd_socket":"/a","base_path":"/b"}"#)),
        Ok(("/b.sock".to_string(), "/b-events.sock".to_string()))
    );
    assert_eq!(
        socket_paths_from_options(&state(
            r#"{"cmd_socket":"/a","event_socket":"/c","base_path":"/b"}"#
        )),
        Ok(("/a".to_string(), "/c".to_string()))
    );
    assert!(socket_paths_from_options(&state(r#"{"base_path":1}"#)).is_err());
    let base = SocketAdapterConfig::BasePath { base_path: "/b".into() };
    assert_eq!(base.socket_paths(), ("/b.sock".to_string(), "/b-events.sock".to_string()));
}

#[test]
fn the_default_configuration_watches_workspaces() {
    let config = Config::default_config();
    assert_eq!(config.adapter.name(), "mock");
    assert_eq!(config.watch.len(), 1);
    assert_eq!(config.watch[0].event, "workspace_change");
    assert_eq!(config.watch[0].script, "on_workspace_change.rhai");
    assert_eq!(config.watch[0].description.as_deref(), Some("Called when workspace changes"));
    assert!(config.command.is_empty());
    assert_eq!(config.settings.log_level, default_log_level());
}

#[test]
fn places_of_files() {
    assert_eq!(scripts_dir_in(Some("/c"), Some("/h")), "/c/middlesox/scripts");
    assert_eq!(scripts_dir_in(None, Some("/h")), "/h/.config/middlesox/scripts");
    assert_eq!(scripts_dir_in(None, None), ".config/middlesox/scripts");
    assert_eq!(
        config_candidates_in(Some("/c")),
        vec!["./middlesox.toml", "/c/middlesox/config.toml", "/etc/middlesox/config.toml"]
    );
    let candidates = config_candidates();
    assert_eq!(candidates.len(), 3);
    assert_eq!(candidates[2], "/etc/middlesox/config.toml");
    assert!(default_scripts_dir().ends_with("middlesox/scripts"));
}

#[test]
fn script_paths() {
    assert_eq!(resolve_script_path("/s", "/usr/local/bin/notify"), "/usr/local/bin/notify");
    assert_eq!(resolve_script_path("/s", "wallpaper.rhai"), "/s/wallpaper.rhai");
    assert_eq!(resolve_script_path("/s/", "subdir/hook.sh"), "/s/subdir/hook.sh");
    assert_eq!(resolve_script_path("", "a"), "a");
    assert!(is_absolute("/a"));
    assert!(!is_absolute("a/b"));
    assert_eq!(join_path("a", "b"), "a/b");
    assert_eq!(file_extension("/s/a.b.rhai"), Some("rhai"));
    assert_eq!(file_extension("/s.d/a"), None);
    assert_eq!(file_extension(".rhai"), None);
    assert_eq!(file_extension("a."), Some(""));
}

#[test]
fn scripts_directories() {
    assert_eq!(expand_path_in("~/x", Some("/h")), "/h/x");
    assert_eq!(expand_path_in("~/x", None), "~/x");
    assert_eq!(expand_path_in("~x", Some("/h")), "~x");
    assert_eq!(expand_path("/already/there"), "/already/there");
    assert_eq!(resolve_scripts_dir("scripts", Some("/e/c.toml"), Some("/h")), "/e/scripts");
    assert_eq!(resolve_scripts_dir("/s", Some("/e/c.toml"), Some("/h")), "/s");
    assert_eq!(resolve_scripts_dir("~/s", Some("/e/c.toml"), Some("/h")), "/h/s");
    assert_eq!(resolve_scripts_dir("s", None, None), "s");
}

#[test]
fn the_first_file_that_exists_is_taken() {
    let places = config_candidates_in(Some("/c"));
    assert_eq!(
        choose_first(&places, &vec![false, true, true]).as_deref(),
        Some("/c/middlesox/config.toml")
    );
    assert_eq!(choose_first(&places, &vec![false, false, false]), None);
}

#[test]
fn tables_may_be_lists_of_their_members() {
    let toml = r#"
settings = ["s", "debug", { A = "1" }, "ignored"]
adapter = ["mangowc"]
watch = [["e", "x.sh", {}, { id = 2 }, "text"], ["f", "y.sh", {}, {}, "text", false]]
command = [["c", "c.sh", "text"]]
"#;
    let config = Config::parse(toml).unwrap();
    assert_eq!(config.settings.scripts_dir, "s");
    assert_eq!(config.settings.log_level, "debug");
    assert_eq!(config.settings.script_env.get("A"), Some("1"));
    assert_eq!(config.adapter.name(), "mangowc");
    assert_eq!(config.watch[0].curr.get("id"), Some(&JsonValue::signed(2)));
    assert!(config.watch[0].enabled);
    assert!(!config.watch[1].enabled);
    assert_eq!(config.command[0].script, "c.sh");
    for toml in [
        "adapter = []",
        "adapter = [\"mock\", 1]",
        "adapter = [\"socket\", \"/a\", \"/b\"]",
        "watch = [[\"e\", \"x.sh\"]]",
        "command = [[\"c\", \"c.sh\"]]",
        "settings = [1]",
    ] {
        assert!(Config::parse(toml).is_err(), "{toml}");
    }
}

#[test]
fn documents_that_were_read_already() {
    let doc = parse_json(r#"{"watch":[{"event":"e","exec":"x.sh"}],"more":1}"#).unwrap();
    let config = Config::from_document(&doc, "/default").unwrap();
    assert_eq!(config.settings.scripts_dir, "/default");
    assert_eq!(config.watch[0].script, "x.sh");
    assert_eq!(
        Config::from_document(&JsonValue::Null, "/default").unwrap_err(),
        "expected a table"
    );
}
