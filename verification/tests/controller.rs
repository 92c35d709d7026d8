use middlesox::capability::{Capability, CapabilityManifest};
use middlesox::config::{AdapterConfig, Command, Config, Settings, Watch};
use middlesox::control::{ControlRequest, ControlResponse};
use middlesox::controller::{
    check_set, check_shebang, daemon_result, daemon_step, finish_caps, finish_get, finish_script,
    finish_set, handle_event, has_shebang, output_text, plan_script, script_environment,
    script_kind, script_payload, shell_outcome, validate_set_key, ControlStep, Controller,
    DaemonInput, DaemonStep, ScriptKind, ShellRun, MAX_OUTPUT_BYTES,
};
use middlesox::environment::Variables;
use middlesox::event::RawEvent;
use middlesox::json::parse_json;
use middlesox::mock::MockBackend;
use middlesox::value::{JsonValue, StateMap};

fn json(text: &str) -> JsonValue {
    parse_json(text).unwrap()
}

fn settings() -> Settings {
    Settings {
        scripts_dir: "/scripts".into(),
        log_level: "debug".into(),
        script_env: Variables::new(),
    }
}

fn empty_config() -> Config {
    Config {
        settings: settings(),
        adapter: AdapterConfig::Mock,
        watch: vec![],
        command: vec![],
    }
}

/// A daemon with a mock backend, without its sockets.
struct TestHarness {
    controller: Controller,
    backend: MockBackend,
}

impl TestHarness {
    fn new() -> Self {
        TestHarness {
            controller: Controller::new(empty_config(), "mock", "/scripts", 42),
            backend: MockBackend::new(),
        }
    }

    fn send_request(&mut self, request: ControlRequest) -> ControlResponse {
        let mut step = self.controller.handle_control(request);
        loop {
            step = match step {
                ControlStep::ReadKey { key } => return finish_get(self.backend.get(&key)),
                ControlStep::AskBeforeSet { key, value } => {
                    check_set(key, value, &Ok(self.backend.manifest()))
                }
                ControlStep::WriteKey { key, value } => {
                    return finish_set(&self.backend.set(&key, &value))
                }
                ControlStep::RunScript { .. } => {
                    return finish_script(&Err("no scripts here".to_string()))
                }
                ControlStep::AskForCaps => return finish_caps(&Ok(self.backend.manifest())),
                ControlStep::Answer(response) => return response,
            };
        }
    }
}

fn get(key: &str) -> ControlRequest {
    ControlRequest::Get { key: key.into() }
}

fn set(key: &str, value: JsonValue) -> ControlRequest {
    ControlRequest::SetKey { key: key.into(), value }
}

#[test]
fn test_daemon_start_and_status() {
    let mut harness = TestHarness::new();

    let resp = harness.send_request(ControlRequest::Status);

    assert!(resp.success, "Status request should succeed");
    let result = resp.result.unwrap();
    assert_eq!(result.member("running"), JsonValue::Bool(true));
    assert_eq!(result.member("adapter"), JsonValue::text("mock"));
    assert_eq!(result.member("pid"), JsonValue::unsigned(42));
}

#[test]
fn test_daemon_stop() {
    let mut harness = TestHarness::new();

    assert!(ControlRequest::Stop.stops_daemon());
    let resp = harness.send_request(ControlRequest::Stop);
    assert!(resp.success);
    assert!(!ControlRequest::Status.stops_daemon());
}

#[test]
fn test_daemon_caps() {
    let mut harness = TestHarness::new();

    let resp = harness.send_request(ControlRequest::Caps);
    assert!(resp.success);

    let caps = resp.result.unwrap();
    let caps = caps.as_array().expect("caps should be an array");

    let names: Vec<JsonValue> = caps.iter().map(|c| c.member("name")).collect();

    assert!(names.contains(&JsonValue::text("workspace")), "should have workspace capability");
    assert!(names.contains(&JsonValue::text("layout")), "should have layout capability");
    assert!(names.contains(&JsonValue::text("monitor")), "should have monitor capability");
    assert!(names.contains(&JsonValue::text("window_count")), "should have window_count capability");
    assert_eq!(
        caps[2],
        json(r#"{"name":"monitor","access":"ReadOnly","description":"Current monitor name"}"#)
    );
}

#[test]
fn test_daemon_commands_empty() {
    let mut harness = TestHarness::new();

    let resp = harness.send_request(ControlRequest::Commands);
    assert!(resp.success);

    let cmds = resp.result.unwrap();
    let cmds = cmds.as_array().expect("commands should be an array");
    assert!(cmds.is_empty(), "default config should have no commands");
}

#[test]
fn test_multiple_requests() {
    let mut harness = TestHarness::new();

    for _ in 0..5 {
        let resp = harness.send_request(ControlRequest::Status);
        assert!(resp.success);
    }
}

#[test]
fn test_get_workspace() {
    let mut harness = TestHarness::new();

    let resp = harness.send_request(get("workspace"));

    assert!(resp.success);
    assert_eq!(resp.result.unwrap(), json("1"));
}

#[test]
fn test_get_layout() {
    let mut harness = TestHarness::new();

    let resp = harness.send_request(get("layout"));

    assert!(resp.success);
    assert_eq!(resp.result.unwrap(), json("\"master\""));
}

#[test]
fn test_get_monitor() {
    let mut harness = TestHarness::new();

    let resp = harness.send_request(get("monitor"));

    assert!(resp.success);
    assert_eq!(resp.result.unwrap(), json("\"MOCK-1\""));
}

#[test]
fn test_set_workspace() {
    let mut harness = TestHarness::new();

    let resp = harness.send_request(set("workspace", json("5")));
    assert!(resp.success, "set workspace should succeed");

    let resp = harness.send_request(get("workspace"));
    assert!(resp.success);
    assert_eq!(resp.result.unwrap(), json("5"));
}

#[test]
fn test_set_layout() {
    let mut harness = TestHarness::new();

    let resp = harness.send_request(set("layout", json("\"grid\"")));
    assert!(resp.success, "set layout should succeed");

    let resp = harness.send_request(get("layout"));
    assert!(resp.success);
    assert_eq!(resp.result.unwrap(), json("\"grid\""));
}

#[test]
fn test_set_readonly_fails() {
    let mut harness = TestHarness::new();

    let resp = harness.send_request(set("monitor", json("\"test-monitor\"")));

    assert!(!resp.success, "setting read-only key should fail");
    assert_eq!(resp.error.as_deref(), Some("read-only key: monitor"));
}

#[test]
fn test_set_unknown_key_rejected_by_manifest() {
    let mut harness = TestHarness::new();

    let resp = harness.send_request(set("missing", json("1")));

    assert!(!resp.success, "setting unknown key should fail");
    assert_eq!(resp.error.as_deref(), Some("unknown key: missing"));
}

#[test]
fn test_get_unknown_key() {
    let mut harness = TestHarness::new();

    let resp = harness.send_request(get("nonexistent"));

    assert!(!resp.success, "getting unknown key should fail");
    assert!(resp.error.is_some());
}

#[test]
fn test_set_workspace_invalid_range() {
    let mut harness = TestHarness::new();

    let resp = harness.send_request(set("workspace", json("100")));

    assert!(!resp.success, "setting workspace out of range should fail");
    assert!(resp.error.is_some());
}

#[test]
fn test_set_layout_invalid_value() {
    let mut harness = TestHarness::new();

    let resp = harness.send_request(set("layout", json("\"invalid_layout\"")));

    assert!(!resp.success, "setting invalid layout should fail");
    assert!(resp.error.is_some());
}

#[test]
fn test_multiple_set_operations() {
    let mut harness = TestHarness::new();

    for ws in [2, 3, 4, 5] {
        let resp = harness.send_request(set("workspace", JsonValue::signed(ws)));
        assert!(resp.success);

        let resp = harness.send_request(get("workspace"));
        assert_eq!(resp.result.unwrap(), JsonValue::signed(ws));
    }
}

/// A backend that takes every write and counts them.
struct PermissiveBackend {
    set_calls: usize,
}

impl PermissiveBackend {
    fn manifest(&self) -> CapabilityManifest {
        CapabilityManifest::new()
            .add(Capability::read_write("workspace"))
            .add(Capability::read_only("monitor"))
    }

    fn set(&mut self, _key: &str, _value: JsonValue) -> Result<(), String> {
        self.set_calls += 1;
        Ok(())
    }
}

fn set_through(backend: &mut PermissiveBackend, key: &str, value: JsonValue) -> ControlResponse {
    let controller = Controller::new(empty_config(), "permissive", "/tmp", 1);
    match controller.handle_control(set(key, value)) {
        ControlStep::AskBeforeSet { key, value } => {
            match check_set(key, value, &Ok(backend.manifest())) {
                ControlStep::WriteKey { key, value } => finish_set(&backend.set(&key, value)),
                ControlStep::Answer(response) => response,
                _ => panic!("unexpected step"),
            }
        }
        _ => panic!("the manifest should be asked for"),
    }
}

#[test]
fn cli_set_rejects_read_only_keys_before_adapter_set() {
    let mut backend = PermissiveBackend { set_calls: 0 };

    let response = set_through(&mut backend, "monitor", json("\"other\""));

    assert!(!response.success);
    assert_eq!(response.error.as_deref(), Some("read-only key: monitor"));
    assert_eq!(backend.set_calls, 0);
}

#[test]
fn cli_set_rejects_unknown_keys_before_adapter_set() {
    let mut backend = PermissiveBackend { set_calls: 0 };

    let response = set_through(&mut backend, "missing", json("1"));

    assert!(!response.success);
    assert_eq!(response.error.as_deref(), Some("unknown key: missing"));
    assert_eq!(backend.set_calls, 0);
}

#[test]
fn cli_set_allows_writable_keys() {
    let mut backend = PermissiveBackend { set_calls: 0 };

    let response = set_through(&mut backend, "workspace", json("2"));

    assert!(response.success);
    assert_eq!(backend.set_calls, 1);
}

#[test]
fn a_missing_manifest_refuses_writes() {
    let gone: Result<CapabilityManifest, String> = Err("Adapter task closed".to_string());
    match check_set("workspace".into(), json("2"), &gone) {
        ControlStep::Answer(r) => assert_eq!(r.error.as_deref(), Some("Adapter task closed")),
        _ => panic!("nothing may be written"),
    }
    assert_eq!(validate_set_key("workspace", &gone), Err("Adapter task closed".to_string()));
    assert_eq!(finish_caps(&gone).error.as_deref(), Some("Adapter task closed"));
}

#[test]
fn commands_run_their_scripts() {
    let mut config = empty_config();
    config.command.push(Command {
        name: "cycle".into(),
        script: "cycle.rhai".into(),
        description: None,
    });
    let controller = Controller::new(config, "mock", "/scripts", 1);
    assert_eq!(controller.adapter_name(), "mock");
    assert_eq!(controller.config().command.len(), 1);
    match controller.handle_control(ControlRequest::Exec { name: "cycle".into() }) {
        ControlStep::RunScript { name, path } => {
            assert_eq!(name, "cycle.rhai");
            assert_eq!(path, "/scripts/cycle.rhai");
        }
        _ => panic!("a script should run"),
    }
    match controller.handle_control(ControlRequest::Exec { name: "other".into() }) {
        ControlStep::Answer(r) => assert_eq!(r.error.as_deref(), Some("Unknown command: other")),
        _ => panic!("nothing should run"),
    }
    match controller.handle_control(ControlRequest::Commands) {
        ControlStep::Answer(r) => assert_eq!(
            r.result,
            Some(json(r#"[{"name":"cycle","script":"cycle.rhai","description":null}]"#))
        ),
        _ => panic!("commands should be listed"),
    }
    let done = finish_script(&Ok(None));
    assert!(done.success && done.result.is_none());
    assert_eq!(finish_script(&Ok(Some("out".into()))).result, Some(JsonValue::text("out")));
    assert_eq!(finish_script(&Err("no".into())).error.as_deref(), Some("no"));
}

fn watch(event: &str, script: &str, curr: &str) -> Watch {
    Watch {
        event: event.into(),
        script: script.into(),
        prev: StateMap::new(),
        curr: json(curr).as_object().unwrap().clone(),
        description: None,
        enabled: true,
    }
}

#[test]
fn events_run_the_scripts_of_matching_watches() {
    let mut config = empty_config();
    config.watch.push(watch("workspace_change", "all.sh", "{}"));
    config.watch.push(watch("workspace_change", "two.rhai", r#"{"id":2}"#));
    config.watch.push(watch("focus_change", "focus.sh", "{}"));
    config.watch.push(Watch { enabled: false, ..watch("workspace_change", "off.sh", "{}") });
    config.watch.push(watch("workspace_change", "/abs/last", "{}"));

    let two = RawEvent::new("workspace_change").with_curr("id", JsonValue::signed(2));
    assert_eq!(handle_event(&config, &two), vec!["all.sh", "two.rhai", "/abs/last"]);
    let three = RawEvent::new("workspace_change").with_curr("id", JsonValue::signed(3));
    assert_eq!(handle_event(&config, &three), vec!["all.sh", "/abs/last"]);
    let bare = RawEvent::new("workspace_change");
    assert_eq!(handle_event(&config, &bare), vec!["all.sh", "/abs/last"]);
    assert!(handle_event(&config, &RawEvent::new("other")).is_empty());

    let controller = Controller::new(config, "mock", "/scripts", 1);
    assert_eq!(
        controller.scripts_for_event(&three),
        vec![
            ("all.sh".to_string(), "/scripts/all.sh".to_string()),
            ("/abs/last".to_string(), "/abs/last".to_string()),
        ]
    );
}

#[test]
fn scripts_by_extension() {
    assert_eq!(script_kind("/s/a.rhai"), ScriptKind::Rhai);
    assert_eq!(script_kind("/s/a.sh"), ScriptKind::Executable { needs_shebang: true });
    assert_eq!(script_kind("/s/a.py"), ScriptKind::Executable { needs_shebang: false });
    assert_eq!(script_kind("/s/sh"), ScriptKind::Executable { needs_shebang: false });
    assert_eq!(plan_script("/s/a.rhai", true), Ok(ScriptKind::Rhai));
    assert_eq!(plan_script("/s/a.rhai", false), Err("Script not found: /s/a.rhai".to_string()));
    assert!(has_shebang(&b"#!/bin/sh".to_vec()));
    assert!(has_shebang(&b"#!".to_vec()));
    assert!(!has_shebang(&b"#".to_vec()));
    assert!(!has_shebang(&b"!#".to_vec()));
    assert_eq!(check_shebang("a.sh", &Ok(b"#!".to_vec())), Ok(()));
    assert_eq!(
        check_shebang("a.sh", &Ok(vec![])),
        Err("Script 'a.sh' is missing a shebang line (e.g., #!/bin/bash)".to_string())
    );
    assert_eq!(
        check_shebang("a.sh", &Err("denied".into())),
        Err("Failed to read script 'a.sh': denied".to_string())
    );
}

#[test]
fn what_executables_get() {
    let event = RawEvent::new("workspace_change")
        .with_prev("id", JsonValue::signed(1))
        .with_curr("id", JsonValue::signed(2))
        .with_curr("a", JsonValue::text("x\"y"));
    assert_eq!(
        script_payload(Some(&event)),
        r#"{"event":"workspace_change","prev":{"id":1},"curr":{"a":"x\"y","id":2}}"#
    );
    assert_eq!(script_payload(None), r#"{"event":"command","prev":null,"curr":null}"#);
    let open = RawEvent::new("window_open").with_curr("id", JsonValue::signed(1));
    assert_eq!(
        script_payload(Some(&open)),
        r#"{"event":"window_open","prev":null,"curr":{"id":1}}"#
    );

    let mut configured = Variables::new();
    configured.insert("PATH", "/bin");
    configured.insert("MSX_EVENT", "mine");
    let env = script_environment(&configured, Some(&event));
    assert_eq!(env.get("PATH"), Some("/bin"));
    assert_eq!(env.get("MSX_EVENT"), Some("workspace_change"));
    assert_eq!(env.get("MSX_PREV"), Some(r#"{"id":1}"#));
    assert_eq!(env.get("MSX_CURR"), Some(r#"{"a":"x\"y","id":2}"#));
    let env = script_environment(&configured, None);
    assert_eq!(env.get("MSX_EVENT"), Some("command"));
    assert_eq!(env.get("MSX_PREV"), Some("null"));
    assert_eq!(env.get("MSX_CURR"), Some("null"));
    assert_eq!(env.pairs().len(), 4);
}

#[test]
fn outcomes_of_executables() {
    let run = |success: bool, stdout: &[u8], stderr: &[u8]| ShellRun::Finished {
        success,
        status: "exit status: 3".into(),
        stdout: stdout.to_vec(),
        stderr: stderr.to_vec(),
    };
    assert_eq!(shell_outcome("s", &run(true, b"", b"warned")), Ok(None));
    assert_eq!(shell_outcome("s", &run(true, "größe\n".as_bytes(), b"")), Ok(Some("größe\n".into())));
    assert_eq!(
        shell_outcome("s", &run(false, b"out", b"bad")),
        Err("Command 's' failed with status exit status: 3: bad".to_string())
    );
    assert_eq!(
        shell_outcome("s", &ShellRun::Failed("no such file".into())),
        Err("Failed to execute command 's': no such file".to_string())
    );
    assert_eq!(
        shell_outcome("s", &ShellRun::TimedOut),
        Err("Command 's' timed out after 60s".to_string())
    );
    let long = vec![b'x'; MAX_OUTPUT_BYTES + 10];
    assert_eq!(output_text(&long).len(), MAX_OUTPUT_BYTES);
    assert_eq!(output_text(&vec![b'a', 0xff, b'b']), "a\u{fffd}b");
}

#[test]
fn the_daemon_loop() {
    assert!(matches!(daemon_step(&DaemonInput::Event), DaemonStep::HandleEvent));
    assert!(matches!(daemon_step(&DaemonInput::Client), DaemonStep::ServeClient));
    assert!(matches!(daemon_step(&DaemonInput::Interrupted), DaemonStep::Finish(Ok(()))));
    assert!(matches!(daemon_step(&DaemonInput::StopRequested), DaemonStep::Finish(Ok(()))));
    match daemon_step(&DaemonInput::EventsEnded) {
        DaemonStep::Finish(Err(e)) => assert_eq!(e, "adapter event stream ended unexpectedly"),
        _ => panic!("the loop should end"),
    }
    match daemon_step(&DaemonInput::AcceptFailed("too many files".into())) {
        DaemonStep::Finish(Err(e)) => assert_eq!(e, "too many files"),
        _ => panic!("the loop should end"),
    }
    assert_eq!(daemon_result(Ok(()), Ok(())), Ok(()));
    assert_eq!(daemon_result(Ok(()), Err("b".into())), Err("b".to_string()));
    assert_eq!(daemon_result(Err("a".into()), Err("b".into())), Err("a".to_string()));
}
