use middlesox::capability::{check_writable, AccessMode, Capability, CapabilityManifest};
use middlesox::environment::Variables;
use middlesox::event::RawEvent;
use middlesox::json::parse_json;
use middlesox::names::{sorted_names, NameSet};
use middlesox::text::{
    eq_ignore_ascii_case, i64_to_text, parse_i64, parse_u32, split_once, starts_with, text_less,
    trim, trim_end, trim_start, u64_to_text,
};
use middlesox::value::{JsonValue, Number, StateMap};

fn json(text: &str) -> JsonValue {
    parse_json(text).unwrap()
}

#[test]
fn capabilities() {
    let ro = Capability::read_only("monitor").with_description("which");
    assert_eq!(ro.access, AccessMode::ReadOnly);
    assert!(!ro.is_writable());
    assert_eq!(ro.description.as_deref(), Some("which"));
    let manifest = CapabilityManifest::new()
        .add(ro)
        .add(Capability::read_write("layout"))
        .add(Capability::read_only("layout"));
    assert_eq!(manifest.len(), 3);
    assert!(!manifest.is_empty());
    assert!(CapabilityManifest::default().is_empty());
    let collected = CapabilityManifest::from_vec(manifest.iter().clone());
    assert_eq!(collected.len(), manifest.len());
    assert_eq!(collected.iter().len(), manifest.len());
    assert_eq!(collected.iter()[0].name, manifest.iter()[0].name);
    assert_eq!(CapabilityManifest::from_vec(vec![]).len(), 0);
    assert!(manifest.find("layout").unwrap().is_writable());
    assert!(manifest.find("other").is_none());
    assert_eq!(manifest.iter()[0].name, "monitor");
    assert_eq!(check_writable(&manifest, "layout"), Ok(()));
    assert_eq!(check_writable(&manifest, "monitor"), Err("read-only key: monitor".to_string()));
    assert_eq!(check_writable(&manifest, "x"), Err("unknown key: x".to_string()));
}

#[test]
fn events_hold_two_states() {
    let event = RawEvent::new("focus_change")
        .with_prev("id", JsonValue::signed(1))
        .with_curr("id", JsonValue::signed(2))
        .with_curr("title", JsonValue::text("x"))
        .with_curr("id", JsonValue::signed(3));
    assert_eq!(event.get_prev("id"), Some(&JsonValue::signed(1)));
    assert_eq!(event.get_curr_i64("id"), Some(3));
    assert_eq!(event.get_curr_str("title"), Some("x"));
    assert_eq!(event.get_curr_str("id"), None);
    assert_eq!(event.get_prev_str("title"), None);
    assert_eq!(event.get_prev_i64("none"), None);
    assert!(event.timestamp > 0);
    let whole = RawEvent::at("e", 5)
        .with_curr("a", JsonValue::Null)
        .with_curr_state(json(r#"{"b":1}"#).as_object().unwrap().clone())
        .with_prev_state(StateMap::new());
    assert_eq!(whole.timestamp, 5);
    assert_eq!(whole.get_curr("a"), None);
    assert_eq!(whole.get_curr_i64("b"), Some(1));
    assert!(whole.prev.unwrap().is_empty());
}

#[test]
fn numbers_compare_as_in_json() {
    assert_eq!(JsonValue::signed(1), JsonValue::unsigned(1));
    assert_ne!(json("1"), json("1.0"));
    assert_eq!(json("0.0"), json("-0.0"));
    assert_ne!(json("[1]"), json("[1,1]"));
    assert_eq!(json(r#"{"a":1,"b":2}"#), json(r#"{"b":2,"a":1}"#));
    assert_ne!(json(r#"{"a":1}"#), json(r#"{"a":2}"#));
    assert_ne!(json(r#"{"a":1}"#), json(r#"{"b":1}"#));
    assert!(Number::from_float_bits(f64::NAN.to_bits()).is_none());
    assert!(Number::from_float_bits(f64::INFINITY.to_bits()).is_none());
    assert_eq!(Number::from_i64(-1).as_u64(), None);
    assert_eq!(Number::from_u64(u64::MAX).as_i64(), None);
    assert_eq!(Number::from_u64(7).as_i64(), Some(7));
    assert_eq!(
        Number::from_float_bits(1.5f64.to_bits()).unwrap().float_bits(),
        Some(1.5f64.to_bits())
    );
}

#[test]
fn values_are_taken_apart() {
    let v = json(r#"{"n":null,"b":true,"i":-3,"s":"x","a":[1]}"#);
    assert!(v.member("n").is_null());
    assert!(v.member("none").is_null());
    assert_eq!(v.member("b").as_bool(), Some(true));
    assert_eq!(v.member("i").as_i64(), Some(-3));
    assert_eq!(v.member("i").as_u64(), None);
    assert_eq!(v.member("s").as_str(), Some("x"));
    assert_eq!(v.member("a").as_array().unwrap().len(), 1);
    assert!(v.as_array().is_none());
    assert_eq!(v.as_object().unwrap().len(), 5);
    assert!(JsonValue::signed(1).member("x").is_null());
    let mut map = v.as_object().unwrap().clone();
    map.insert("s", JsonValue::text("y"));
    assert_eq!(map.len(), 5);
    assert_eq!(map.get("s"), Some(&JsonValue::text("y")));
}

#[test]
fn texts() {
    assert_eq!(split_once("a>>b>>c", ">>"), Some(("a", "b>>c")));
    assert_eq!(split_once("größe,x", ","), Some(("größe", "x")));
    assert_eq!(split_once("a", ","), None);
    assert_eq!(split_once(",", ","), Some(("", "")));
    assert!(starts_with("abc", "ab"));
    assert!(!starts_with("a", "ab"));
    assert_eq!(trim(" \t a b\u{a0}\n"), "a b");
    assert_eq!(trim_start("  x "), "x ");
    assert_eq!(trim_end("  x "), "  x");
    assert!(eq_ignore_ascii_case("TgMix", "tgmix"));
    assert!(!eq_ignore_ascii_case("Ä", "ä"));
    assert!(text_less("a", "b") && text_less("a", "aa") && !text_less("a", "a"));
}

#[test]
fn integers_as_text() {
    for i in [0, 1, -1, 42, i64::MAX, i64::MIN] {
        assert_eq!(i64_to_text(i), i.to_string());
        assert_eq!(parse_i64(&i.to_string()), Some(i));
    }
    for u in [0, 9, 10, u64::MAX] {
        assert_eq!(u64_to_text(u), u.to_string());
    }
    for text in [
        "", "+", "-", "+-1", "1a", " 1", "9223372036854775808", "-9223372036854775809",
        "99999999999999999999999999999999999999999999",
    ] {
        assert_eq!(parse_i64(text), text.parse::<i64>().ok(), "{text}");
        assert_eq!(parse_u32(text), text.parse::<u32>().ok(), "{text}");
    }
    for text in ["+7", "007", "-0", "4294967295", "4294967296", "00000000000000000000000000000001"] {
        assert_eq!(parse_i64(text), text.parse::<i64>().ok(), "{text}");
        assert_eq!(parse_u32(text), text.parse::<u32>().ok(), "{text}");
    }
}

#[test]
fn sets_of_names() {
    let mut names = NameSet::new();
    assert!(names.is_empty());
    names.insert("b");
    names.insert("a");
    names.insert("b");
    assert_eq!(names.len(), 2);
    assert!(names.contains("a") && !names.contains("c"));
    let sorted = sorted_names(vec!["b".into(), "a".into(), "aa".into()]);
    assert_eq!(sorted, vec!["a", "aa", "b"]);
    let mut env = Variables::new();
    env.insert("A", "1");
    env.insert("A", "2");
    assert_eq!(env.get("A"), Some("2"));
    assert_eq!(env.get("B"), None);
    assert_eq!(env.pairs().len(), 1);
}
