use middlesox::capability::{Capability, CapabilityManifest};
use middlesox::engine::{
    create_engine, dynamic_to_json, event_scope, held_to_json, json_map_to_dynamic,
    json_to_dynamic, script_error, script_get_result, script_output, script_set_result,
    script_set_value, shown_result, MAX_SHARED,
};
use middlesox::event::RawEvent;
use middlesox::json::{from_outside, parse_json, to_outside, to_pretty, to_text};
use middlesox::mock::MockBackend;
use middlesox::value::JsonValue;
use std::sync::{Arc, Mutex};

fn json(text: &str) -> JsonValue {
    parse_json(text).unwrap()
}

/// Runs a script against a backend, as the daemon does.
fn run(
    backend: &Arc<Mutex<MockBackend>>,
    script: &str,
    event: Option<&RawEvent>,
) -> Result<rhai::Dynamic, String> {
    let mut engine = create_engine();
    let mut scope = rhai::Scope::new();
    if let Some(event) = event {
        for (name, value) in event_scope(event) {
            scope.push_dynamic(name, value);
        }
    }
    let reader = backend.clone();
    engine.register_fn("get", move |key: &str| -> rhai::Dynamic {
        script_get_result(&reader.lock().unwrap().get(key))
    });
    let writer = backend.clone();
    engine.register_fn("set", move |key: &str, value: rhai::Dynamic| -> String {
        let mut backend = writer.lock().unwrap();
        match script_set_value(&Ok(backend.manifest()), key, value) {
            Ok(value) => script_set_result(&backend.set(key, &value)),
            Err(e) => e,
        }
    });
    engine
        .eval_with_scope::<rhai::Dynamic>(&mut scope, script)
        .map_err(|e| script_error(&e.to_string()))
}

fn backend() -> Arc<Mutex<MockBackend>> {
    Arc::new(Mutex::new(MockBackend::new()))
}

#[test]
fn engine_test_script_get() {
    let result = run(&backend(), r#"get("workspace")"#, None).unwrap();
    assert_eq!(result.as_int().unwrap(), 1);
}

#[test]
fn engine_test_script_set() {
    let script = r#"
        let current = get("layout");
        if current == "master" {
            let err = set("layout", "grid");
            if err != "" { throw err; }
        }
        get("layout")
    "#;

    let result = run(&backend(), script, None).unwrap();
    assert_eq!(result.into_string().unwrap(), "grid");
}

#[test]
fn engine_test_script_security() {
    let script = r#"set("monitor", "test")"#;
    let result = run(&backend(), script, None).unwrap();
    let err_msg = result.into_string().unwrap();
    assert!(err_msg.contains("read-only"), "Expected read-only error, got: {}", err_msg);
}

#[test]
fn engine_test_script_with_event_context() {
    let event = RawEvent::new("workspace_change")
        .with_prev("id", JsonValue::signed(1))
        .with_curr("id", JsonValue::signed(2))
        .with_curr("monitor", JsonValue::text("HDMI-1"));

    let script = r#"
        if curr.id > prev.id {
            "increased"
        } else {
            "decreased"
        }
    "#;

    let result = run(&backend(), script, Some(&event)).unwrap();
    assert_eq!(result.into_string().unwrap(), "increased");
}

#[test]
fn scripting_test_script_get() {
    let result = run(&backend(), r#"get("workspace")"#, None).unwrap();
    assert_eq!(result.as_int().unwrap(), 1);
}

#[test]
fn scripting_test_script_set() {
    let script = r#"
        let current = get("layout");
        if current == "master" {
            set("layout", "grid");
        }
        get("layout")
    "#;

    let result = run(&backend(), script, None).unwrap();
    assert_eq!(result.into_string().unwrap(), "grid");
}

#[test]
fn scripting_test_script_with_event_context() {
    let event = RawEvent::new("workspace_change")
        .with_prev("id", JsonValue::signed(1))
        .with_curr("id", JsonValue::signed(2))
        .with_curr("monitor", JsonValue::text("HDMI-1"));

    let script = r#"
        if curr.id > prev.id {
            "increased"
        } else {
            "decreased"
        }
    "#;

    let result = run(&backend(), script, Some(&event)).unwrap();
    assert_eq!(result.into_string().unwrap(), "increased");
}

#[test]
fn set_tells_scripts_what_went_wrong() {
    let shared = backend();
    let message = |script: &str| run(&shared, script, None).unwrap().into_string().unwrap();
    assert_eq!(message(r#"set("workspace", 4)"#), "");
    assert_eq!(message(r#"set("workspace", 40)"#), "adapter error: workspace must be 1-10");
    assert_eq!(message(r#"set("missing", 1)"#), "unknown key: missing");
    assert_eq!(message(r#"set("monitor", 1)"#), "read-only key: monitor");
    assert_eq!(shared.lock().unwrap().get("workspace"), Ok(JsonValue::signed(4)));
    let gone = Err("Adapter task closed".to_string());
    assert_eq!(
        script_set_value(&gone, "workspace", rhai::Dynamic::UNIT),
        Err("failed to get manifest: Adapter task closed".to_string())
    );
}

#[test]
fn failed_reads_are_unit() {
    let result = run(&backend(), r#"get("missing") == ()"#, None).unwrap();
    assert!(result.as_bool().unwrap());
    let event = RawEvent::new("window_open");
    let result = run(&backend(), "event_name + prev.len() + curr.len()", Some(&event)).unwrap();
    assert_eq!(result.into_string().unwrap(), "window_open00");
}

#[test]
fn scripts_are_limited() {
    let error = |script: &str| run(&backend(), script, None).unwrap_err();
    assert!(error("let x = 0; while true { x += 1; }").starts_with("Script error: "));
    assert!(error("let a = []; for i in 0..2000 { a.push(i); } a").starts_with("Script error: "));
    assert!(error("let s = \"x\"; while true { s += s; }").starts_with("Script error: "));
    assert!(error("let x = ;").starts_with("Script error: "));
    let deep = format!("{}1{}", "(".repeat(70), ")".repeat(70));
    assert!(error(&deep).starts_with("Script error: "));
}

#[test]
fn values_come_back_from_scripts() {
    let text = r#"{"a":[1,-2,0.5,"x",true,null],"b":{"c":{}},"d":9223372036854775807}"#;
    let value = json(text);
    let back = dynamic_to_json(json_to_dynamic(&value));
    assert_eq!(back, value);
    assert_eq!(to_text(&back), text);
    let map = value.as_object().unwrap();
    assert_eq!(dynamic_to_json(json_map_to_dynamic(map)), value);
}

#[test]
fn values_that_do_not_fit() {
    let large = json_to_dynamic(&JsonValue::unsigned(u64::MAX));
    assert_eq!(large.as_float().unwrap(), 18446744073709551615.0f64);
    assert_eq!(json_to_dynamic(&json("2.5")).as_float().unwrap(), 2.5f64);
    assert_eq!(dynamic_to_json(rhai::Dynamic::from(f64::NAN)), JsonValue::Null);
    assert_eq!(dynamic_to_json(rhai::Dynamic::from(f64::INFINITY)), JsonValue::Null);
    assert_eq!(dynamic_to_json(rhai::Dynamic::from('c')), JsonValue::Null);
    assert_eq!(dynamic_to_json(rhai::Dynamic::from(-1.5f64)), json("-1.5"));
    assert!(json_to_dynamic(&JsonValue::Null).is_unit());
}

#[test]
fn shared_values_tell_what_they_hold() {
    let mut a = rhai::Dynamic::UNIT.into_shared();
    let b = a.clone();
    assert_eq!(dynamic_to_json(b.clone()), JsonValue::Null);
    assert_eq!(script_output(&b), None);
    *a.write_lock::<rhai::Dynamic>().unwrap() = rhai::Dynamic::from(5i64);
    assert_eq!(dynamic_to_json(b.clone()), JsonValue::signed(5));
    assert_eq!(script_output(&b), Some("5 (shared)".to_string()));

    let list = rhai::Dynamic::from(vec![b.clone(), rhai::Dynamic::from(true), b]);
    assert_eq!(dynamic_to_json(list.clone()), json("[5,true,5]"));
    assert_eq!(dynamic_to_json(list.into_shared()), json("[5,true,5]"));
    let map = json_to_dynamic(&json(r#"{"a":{"b":["x",null]}}"#)).into_shared();
    assert_eq!(dynamic_to_json(map), json(r#"{"a":{"b":["x",null]}}"#));
    assert_eq!(run(&backend(), "let x = 4; let f = || x; set(\"workspace\", x)", None)
        .unwrap()
        .into_string()
        .unwrap(), "");
}

#[test]
fn values_that_cannot_be_read_are_null() {
    let mut a = rhai::Dynamic::from(5i64).into_shared();
    let b = a.clone();
    let lock = a.write_lock::<rhai::Dynamic>().unwrap();
    assert_eq!(dynamic_to_json(b.clone()), JsonValue::Null);
    drop(lock);
    assert_eq!(dynamic_to_json(b), JsonValue::signed(5));

    let mut left = 1;
    assert_eq!(held_to_json(None, &mut left), JsonValue::Null);
    assert_eq!(held_to_json(Some(rhai::Dynamic::from(1i64)), &mut left), JsonValue::signed(1));
    assert_eq!(left, 1);
    let two = rhai::Dynamic::from(vec![
        rhai::Dynamic::from(1i64).into_shared(),
        rhai::Dynamic::from(2i64).into_shared(),
    ]);
    assert_eq!(held_to_json(Some(two), &mut left), json("[1,null]"));
    assert_eq!(left, 0);
}

#[test]
fn values_that_contain_themselves_end() {
    let mut a = rhai::Dynamic::from(Vec::<rhai::Dynamic>::new()).into_shared();
    let b = a.clone();
    for _ in 0..2 {
        a.write_lock::<rhai::Array>().unwrap().push(b.clone());
    }
    let mut value = &dynamic_to_json(b);
    let mut depth = 0;
    while let Some(items) = value.as_array() {
        depth += 1;
        value = &items[0];
    }
    assert_eq!(depth, MAX_SHARED);
    assert_eq!(value, &JsonValue::Null);
    // Breaks the ring
    a.write_lock::<rhai::Array>().unwrap().clear();
}

#[test]
fn writable_keys_only() {
    let manifest = CapabilityManifest::new()
        .add(Capability::read_write("a"))
        .add(Capability::read_only("b"));
    let value = || rhai::Dynamic::from(7i64);
    assert_eq!(script_set_value(&Ok(manifest.clone()), "a", value()), Ok(JsonValue::signed(7)));
    assert_eq!(
        script_set_value(&Ok(manifest.clone()), "b", value()),
        Err("read-only key: b".to_string())
    );
    assert_eq!(
        script_set_value(&Ok(manifest), "c", value()),
        Err("unknown key: c".to_string())
    );
}

#[test]
fn results_are_shown() {
    assert_eq!(script_output(&rhai::Dynamic::UNIT), None);
    assert_eq!(script_output(&rhai::Dynamic::from(3i64)), Some("3".to_string()));
    assert_eq!(shown_result(true, "x".to_string()), None);
    assert_eq!(shown_result(false, "x".to_string()), Some("x".to_string()));
    assert_eq!(script_output(&rhai::Dynamic::from("x".to_string())), Some("\"x\"".to_string()));
}

#[test]
fn json_is_read_and_written() {
    assert_eq!(parse_json("{"), None);
    assert_eq!(parse_json(""), None);
    assert_eq!(parse_json("1 2"), None);
    assert_eq!(to_text(&json(" { \"b\" : 1.0 , \"a\" : \"\\n\" } ")), r#"{"a":"\n","b":1.0}"#);
    assert_eq!(to_text(&JsonValue::Null), "null");
    assert_eq!(to_pretty(&json("[1]")), "[\n  1\n]");
    let outside = to_outside(&json(r#"{"a":[18446744073709551615,-1,1.5]}"#));
    assert_eq!(outside["a"][0].as_u64(), Some(u64::MAX));
    assert_eq!(outside["a"][1].as_i64(), Some(-1));
    assert_eq!(outside["a"][2].as_f64(), Some(1.5f64));
    assert_eq!(from_outside(outside), json(r#"{"a":[18446744073709551615,-1,1.5]}"#));
}
