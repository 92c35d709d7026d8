use middlesox::capability::AccessMode;
use middlesox::compositor::{
    manifest, poll_step, Compositor, MangoCommand, OutputEvent, PollStep, RegistryAction,
};
use middlesox::json::parse_json;
use middlesox::mangowc::{
    layout_code_to_name, layout_matches, parse_client_tags_value, parse_tags_value, GlobalState,
    OutputState, TagInfo,
};
use middlesox::names::NameSet;
use middlesox::value::{JsonValue, Number};

fn json(text: &str) -> JsonValue {
    parse_json(text).unwrap()
}

#[test]
fn layout_mapping_matches_mango_codes_and_aliases() {
    assert_eq!(layout_code_to_name("K"), "Deck");
    assert_eq!(layout_code_to_name("VK"), "Vertical Deck");
    assert_eq!(layout_code_to_name("TG"), "TGMix");

    assert!(layout_matches("K", "Deck"));
    assert!(layout_matches("D", "K"));
    assert!(layout_matches("VK", "Vertical Deck"));
    assert!(layout_matches("VD", "VK"));
    assert!(layout_matches("TG", "tgmix"));
}

#[test]
fn parse_tags_accepts_bitmask_and_toggle_object() {
    assert_eq!(parse_tags_value(&json("3")).unwrap(), (3, false));
    assert_eq!(
        parse_tags_value(&json(r#"{ "tagmask": 4, "toggle": true }"#)).unwrap(),
        (4, true)
    );
    assert_eq!(parse_tags_value(&json(r#"{ "tags": 5 }"#)).unwrap(), (5, false));
}

#[test]
fn parse_client_tags_accepts_absolute_and_raw_protocol_masks() {
    assert_eq!(parse_client_tags_value(&json("3")).unwrap(), (0, 3));
    assert_eq!(parse_client_tags_value(&json(r#"{ "tags": 6 }"#)).unwrap(), (0, 6));
    assert_eq!(
        parse_client_tags_value(&json(r#"{ "and_tags": 4294967280, "xor_tags": 8 }"#)).unwrap(),
        (0xfffffff0, 8)
    );
}

#[test]
fn output_state_derives_tag_and_layout_values() {
    let global = GlobalState {
        tag_count: 3,
        layouts: vec!["S".into(), "T".into()],
    };
    let output = OutputState {
        layout_idx: 1,
        layout_symbol: "TG".into(),
        tag_info: vec![
            TagInfo { state: 1, clients: 2, focused: true },
            TagInfo { state: 2, clients: 1, focused: false },
            TagInfo { state: 0, clients: 0, focused: false },
        ],
        x: 10,
        y: 20,
        width: 800,
        height: 600,
        ..Default::default()
    };

    assert_eq!(output.layout_name(&global), "TGMix");
    assert_eq!(output.occupied_tags(), 0b011);
    assert_eq!(output.urgent_tags(), 0b010);
    assert_eq!(output.focused_client_tags(), 0b001);
    assert_eq!(output.client_count(), 3);
    assert_eq!(
        output.geometry_json(),
        json(r#"{ "x": 10, "y": 20, "width": 800, "height": 600 }"#)
    );
    assert_eq!(
        output.tag_info_json(),
        json(
            r#"[
                { "tag": 1, "state": 1, "clients": 2, "focused": true },
                { "tag": 2, "state": 2, "clients": 1, "focused": false },
                { "tag": 3, "state": 0, "clients": 0, "focused": false }
            ]"#
        )
    );
}

#[test]
fn output_state_focus_payload_includes_window_identity() {
    let output = OutputState {
        title: "Terminal".into(),
        appid: "kitty".into(),
        ..Default::default()
    };

    let payload = output.focus_payload("DP-1");

    assert_eq!(payload.get("output"), Some(&JsonValue::text("DP-1")));
    assert_eq!(payload.get("title"), Some(&JsonValue::text("Terminal")));
    assert_eq!(payload.get("appid"), Some(&JsonValue::text("kitty")));
}

#[test]
fn manifest_exposes_mango_status_capabilities() {
    let manifest = manifest();

    for key in [
        "layout_symbol",
        "client_tags",
        "tag_count",
        "tag_info",
        "occupied_tags",
        "urgent_tags",
        "client_count",
        "outputs",
        "fullscreen",
        "floating",
        "geometry",
        "last_layer",
        "kb_layout",
        "keymode",
        "scale_factor",
    ] {
        assert!(manifest.find(key).is_some(), "{key} should be exposed");
    }

    assert_eq!(
        manifest.find("client_tags").map(|cap| cap.access),
        Some(AccessMode::ReadWrite)
    );
    assert_eq!(
        manifest.find("scale_factor").map(|cap| cap.access),
        Some(AccessMode::ReadOnly)
    );
}

#[test]
fn tags_that_are_refused() {
    let err = |text: &str| parse_tags_value(&json(text)).unwrap_err();
    assert_eq!(err("-1"), "tags must be a number or object");
    assert_eq!(err("\"x\""), "tags must be a number or object");
    assert_eq!(err("4294967296"), "tags must fit in u32");
    assert_eq!(err("{}"), "tags object must include tagmask or tags");
    assert_eq!(err(r#"{"tagmask":-1,"tags":2}"#), "tagmask must be an unsigned integer");
    assert_eq!(err(r#"{"tags":4294967296}"#), "tagmask must fit in u32");
    assert_eq!(parse_tags_value(&json(r#"{"tags":1,"toggle":"yes"}"#)), Ok((1, false)));

    let err = |text: &str| parse_client_tags_value(&json(text)).unwrap_err();
    assert_eq!(err("true"), "client_tags must be a number or object");
    assert_eq!(err("4294967296"), "client_tags must fit in u32");
    assert_eq!(err("{}"), "client_tags object must include tags or and_tags/xor_tags");
    assert_eq!(err(r#"{"and_tags":1}"#), "client_tags object must include tags or and_tags/xor_tags");
    assert_eq!(err(r#"{"and_tags":"x"}"#), "and_tags must be an unsigned integer");
    assert_eq!(err(r#"{"and_tags":1,"xor_tags":1.5}"#), "xor_tags must be an unsigned integer");
    assert_eq!(err(r#"{"tags":null}"#), "client_tags.tags must be an unsigned integer");
}

#[test]
fn masks_have_a_bit_for_every_tag() {
    let mut tags = vec![TagInfo::default(); 32];
    tags[0].state = 1;
    tags[31].state = 1;
    tags[5].clients = 7;
    tags[31].clients = 9;
    let output = OutputState { tag_info: tags, ..Default::default() };
    assert_eq!(output.active_mask(), 0x8000_0001);
    assert_eq!(output.occupied_tags(), 0x8000_0020);
    assert_eq!(output.urgent_tags(), 0);
    assert_eq!(output.checked_client_count(), Some(16));
}

#[test]
fn layouts_by_code_and_name() {
    let names = [
        ("S", "Scroller"),
        ("T", "Tile"),
        ("G", "Grid"),
        ("M", "Monocle"),
        ("D", "Deck"),
        ("CT", "Center Tile"),
        ("C", "Center Tile"),
        ("VS", "Vertical Scroller"),
        ("VT", "Vertical Tile"),
        ("VG", "Vertical Grid"),
        ("RT", "Right Tile"),
        ("VD", "Vertical Deck"),
        ("XX", "XX"),
        ("s", "s"),
    ];
    for (code, name) in names {
        assert_eq!(layout_code_to_name(code), name);
        assert!(layout_matches(code, code));
        assert!(layout_matches(code, name));
        assert!(layout_matches(code, &name.to_uppercase()));
    }
    assert!(!layout_matches("S", "Tile"));
    assert!(!layout_matches("S", "T"));
}

fn subscribed(names: &[&str]) -> NameSet {
    let mut s = NameSet::new();
    for n in names {
        s.insert(n);
    }
    s
}

fn ready(names: &[&str]) -> Compositor {
    let mut c = Compositor::new(subscribed(names));
    assert!(matches!(
        c.global(1, "zdwl_ipc_manager_v2", 5),
        RegistryAction::BindManager { version: 2, .. }
    ));
    assert!(matches!(
        c.global(7, "wl_output", 9),
        RegistryAction::BindOutput { version: 4, with_status: true }
    ));
    c.tags(3);
    c.layout("S");
    c.layout("T");
    assert!(!c.output_name(7, "DP-1"));
    c
}

#[test]
fn globals_in_either_order() {
    let mut c = Compositor::new(NameSet::new());
    assert_eq!(
        c.check_manager(),
        Err("zdwl_ipc_manager_v2 not available - is this a dwl-based compositor?".to_string())
    );
    assert!(matches!(c.global(3, "wl_compositor", 1), RegistryAction::Nothing));
    assert!(matches!(
        c.global(7, "wl_output", 3),
        RegistryAction::BindOutput { version: 3, with_status: false }
    ));
    assert_eq!(c.command_target(), Err("No focused output".to_string()));
    assert!(!c.output_name(7, "DP-1"));
    assert_eq!(
        c.command_target(),
        Err("No IPC output available for focused output".to_string())
    );
    match c.global(1, "zdwl_ipc_manager_v2", 1) {
        RegistryAction::BindManager { version, outputs } => {
            assert_eq!(version, 1);
            assert_eq!(outputs, vec![7]);
        }
        _ => panic!("the manager should be bound"),
    }
    assert_eq!(c.check_manager(), Ok(()));
    assert_eq!(c.command_target(), Ok(7));
    c.global_remove(7);
    assert!(c.command_target().is_err());
    c.global_remove(7);
}

#[test]
fn state_moves_with_the_name() {
    let mut c = Compositor::new(NameSet::new());
    c.global(1, "zdwl_ipc_manager_v2", 2);
    c.global(7, "wl_output", 4);
    assert!(c.report(7, OutputEvent::Title("early".into())).is_empty());
    c.report(7, OutputEvent::Frame);
    assert_eq!(c.get("title"), Err("No focused output".to_string()));
    c.output_name(7, "DP-1");
    assert_eq!(c.get("title"), Ok(JsonValue::text("early")));
    assert_eq!(c.get("output"), Ok(JsonValue::text("DP-1")));
}

#[test]
fn frames_apply_reports_at_once() {
    let mut c = ready(&["tag_change", "focus_change"]);
    assert!(c
        .report(7, OutputEvent::Tag { tag: 1, state: 1, clients: 2, focused: 1 })
        .is_empty());
    assert!(c.report(7, OutputEvent::Title("Terminal".into())).is_empty());
    assert!(c.report(7, OutputEvent::Appid("kitty".into())).is_empty());
    assert_eq!(c.get("tags"), Ok(JsonValue::unsigned(0)));
    assert_eq!(c.get("title"), Ok(JsonValue::text("")));

    let events = c.report(7, OutputEvent::Frame);
    assert_eq!(events.len(), 2);
    assert_eq!(events[0].name, "tag_change");
    assert_eq!(events[0].get_prev_i64("tags"), Some(0));
    assert_eq!(events[0].get_curr_i64("tags"), Some(2));
    assert_eq!(events[0].get_curr_str("output"), Some("DP-1"));
    assert_eq!(events[1].name, "focus_change");
    assert_eq!(events[1].get_curr_str("title"), Some("Terminal"));
    assert_eq!(events[1].get_curr_str("appid"), Some("kitty"));
    assert_eq!(c.get("tags"), Ok(JsonValue::unsigned(2)));
    assert_eq!(c.get("client_tags"), Ok(JsonValue::unsigned(2)));
    assert!(c.key_fits("client_count"));
    assert_eq!(c.get("client_count"), Ok(JsonValue::unsigned(2)));

    assert!(c.report(7, OutputEvent::Frame).is_empty());
    // a tag that the output does not have changes nothing
    c.report(7, OutputEvent::Tag { tag: 3, state: 1, clients: 1, focused: 0 });
    assert!(c.report(7, OutputEvent::Frame).is_empty());
    // an output that is not known is ignored
    assert!(c.report(99, OutputEvent::Frame).is_empty());
}

#[test]
fn every_change_has_its_event() {
    let names = [
        "tag_change",
        "layout_change",
        "focus_change",
        "window_state_change",
        "geometry_change",
        "layer_change",
        "keyboard_layout_change",
        "keymode_change",
        "scale_factor_change",
    ];
    let mut c = ready(&names);
    let one_and_a_half = Number::from_float_bits(1.5f64.to_bits()).unwrap();
    c.report(7, OutputEvent::Tag { tag: 0, state: 1, clients: 0, focused: 0 });
    c.report(7, OutputEvent::Layout(1));
    c.report(7, OutputEvent::LayoutSymbol("TG".into()));
    c.report(7, OutputEvent::Title("t".into()));
    c.report(7, OutputEvent::Fullscreen(1));
    c.report(7, OutputEvent::Floating(1));
    c.report(7, OutputEvent::X(-5));
    c.report(7, OutputEvent::Y(6));
    c.report(7, OutputEvent::Width(800));
    c.report(7, OutputEvent::Height(600));
    c.report(7, OutputEvent::LastLayer("bar".into()));
    c.report(7, OutputEvent::KbLayout("de".into()));
    c.report(7, OutputEvent::Keymode("resize".into()));
    c.report(7, OutputEvent::Scalefactor(150, one_and_a_half));
    c.report(7, OutputEvent::ToggleVisibility);
    let events = c.report(7, OutputEvent::Frame);
    let got: Vec<&str> = events.iter().map(|e| e.name.as_str()).collect();
    assert_eq!(got, names);
    assert_eq!(events[1].get_prev_str("layout_name"), Some("Scroller"));
    assert_eq!(events[1].get_curr_str("layout_name"), Some("TGMix"));
    assert_eq!(events[1].get_curr_i64("layout"), Some(1));
    assert_eq!(events[3].get_curr("floating"), Some(&JsonValue::Bool(true)));
    assert_eq!(events[4].get_curr_i64("x"), Some(-5));
    assert_eq!(events[5].get_curr_str("last_layer"), Some("bar"));
    assert_eq!(events[6].get_prev_str("kb_layout"), Some(""));
    assert_eq!(events[7].get_curr_str("keymode"), Some("resize"));
    assert_eq!(events[8].get_prev("scale_factor"), Some(&json("0.0")));
    assert_eq!(events[8].get_curr("scale_factor"), Some(&json("1.5")));

    assert_eq!(c.get("scale_factor"), Ok(json("1.5")));
    assert_eq!(c.get("geometry"), Ok(json(r#"{"x":-5,"y":6,"width":800,"height":600}"#)));
    assert_eq!(c.get("layouts"), Ok(json(r#"["Scroller","Tile"]"#)));
    assert_eq!(c.get("layout"), Ok(JsonValue::unsigned(1)));
    assert_eq!(c.get("layout_name"), Ok(JsonValue::text("TGMix")));
    assert_eq!(c.get("keymode"), Ok(JsonValue::text("resize")));
    assert_eq!(c.get("tag_count"), Ok(JsonValue::unsigned(3)));
    assert_eq!(c.get("x"), Ok(JsonValue::signed(-5)));
    assert_eq!(c.get("nonsense"), Err("Unknown key: nonsense".to_string()));
    for cap in manifest().iter() {
        assert!(c.get(&cap.name).is_ok(), "{}", cap.name);
    }
}

#[test]
fn focus_moves_between_outputs() {
    let mut c = ready(&["output_focus"]);
    c.global(8, "wl_output", 4);
    c.output_name(8, "HDMI-1");
    c.report(8, OutputEvent::Title("Browser".into()));
    c.report(8, OutputEvent::Frame);
    assert_eq!(c.get("output"), Ok(JsonValue::text("DP-1")));
    let events = c.report(8, OutputEvent::Active(1));
    assert_eq!(events.len(), 1);
    assert_eq!(events[0].name, "output_focus");
    assert_eq!(events[0].get_prev_str("output"), Some("DP-1"));
    assert_eq!(events[0].get_curr_str("output"), Some("HDMI-1"));
    assert_eq!(events[0].get_curr_str("title"), Some("Browser"));
    assert_eq!(c.get("output"), Ok(JsonValue::text("HDMI-1")));
    assert_eq!(c.command_target(), Ok(8));
    assert!(c.report(8, OutputEvent::Active(1)).is_empty());
    assert!(c.report(7, OutputEvent::Active(0)).is_empty());
    assert_eq!(c.get("outputs"), Ok(json(r#"["DP-1","HDMI-1"]"#)));
}

#[test]
fn only_subscribed_changes_are_told() {
    let mut c = ready(&["keymode_change"]);
    c.report(7, OutputEvent::Title("t".into()));
    c.report(7, OutputEvent::Keymode("m".into()));
    let events = c.report(7, OutputEvent::Frame);
    assert_eq!(events.len(), 1);
    assert_eq!(events[0].name, "keymode_change");
}

#[test]
fn the_number_of_tags_can_change() {
    let mut c = ready(&["tag_change"]);
    c.tags(5);
    assert_eq!(c.get("tag_count"), Ok(JsonValue::unsigned(5)));
    c.report(7, OutputEvent::Tag { tag: 4, state: 2, clients: 1, focused: 0 });
    c.report(7, OutputEvent::Frame);
    assert_eq!(c.get("urgent_tags"), Ok(JsonValue::unsigned(16)));
    c.tags(2);
    assert_eq!(c.get("urgent_tags"), Ok(JsonValue::unsigned(0)));
}

#[test]
fn commands_for_keys() {
    let c = ready(&[]);
    assert_eq!(
        c.set_command("tags", &json(r#"{"tagmask":4,"toggle":true}"#)),
        Ok(MangoCommand::SetTags { tagmask: 4, toggle: true })
    );
    assert_eq!(
        c.set_command("client_tags", &json("6")),
        Ok(MangoCommand::SetClientTags { and_tags: 0, xor_tags: 6 })
    );
    assert_eq!(c.set_command("layout", &json("1")), Ok(MangoCommand::SetLayout { index: 1 }));
    assert_eq!(
        c.set_command("layout", &json("4294967297")),
        Ok(MangoCommand::SetLayout { index: 1 })
    );
    assert_eq!(
        c.set_command("layout_name", &json("\"tile\"")),
        Ok(MangoCommand::SetLayout { index: 1 })
    );
    assert_eq!(
        c.set_command("layout", &json("-1")),
        Err("layout must be a number".to_string())
    );
    assert_eq!(
        c.set_command("layout_name", &json("1")),
        Err("layout_name must be a string".to_string())
    );
    assert_eq!(
        c.set_command("layout_name", &json("\"Grid\"")),
        Err("Layout 'Grid' not found".to_string())
    );
    assert_eq!(
        c.set_command("title", &json("\"x\"")),
        Err("Cannot set 'title' (read-only or unknown)".to_string())
    );
}

#[test]
fn polls() {
    assert_eq!(poll_step(1, false), PollStep::Dispatch);
    assert_eq!(poll_step(0, false), PollStep::Continue);
    assert_eq!(poll_step(-1, true), PollStep::Continue);
    assert_eq!(poll_step(-1, false), PollStep::Fail);
}

#[test]
fn more_tags_than_a_mask_has_bits() {
    let mut c = ready(&["tag_change"]);
    c.tags(40);
    assert_eq!(c.get("tag_count"), Ok(JsonValue::unsigned(40)));
    assert_eq!(c.get("tag_info").unwrap().as_array().unwrap().len(), 40);
    let shown = OutputEvent::Tag { tag: 35, state: 1, clients: 0, focused: 0 };
    assert!(!c.report_fits(7, &shown));
    assert!(c.report_fits(99, &shown));
    let beyond = OutputEvent::Tag { tag: 40, state: 1, clients: 0, focused: 0 };
    assert!(c.report_fits(7, &beyond));
    let last = OutputEvent::Tag { tag: 31, state: 1, clients: 0, focused: 0 };
    assert!(c.report_fits(7, &last));
    c.report(7, last);
    let occupied = OutputEvent::Tag { tag: 35, state: 0, clients: 2, focused: 1 };
    assert!(c.report_fits(7, &occupied));
    c.report(7, occupied);
    assert!(c.key_fits("occupied_tags"));
    c.report(7, OutputEvent::Frame);
    assert_eq!(c.get("tags"), Ok(JsonValue::unsigned(0x8000_0000)));
    assert!(!c.key_fits("occupied_tags"));
    assert!(!c.key_fits("client_tags"));
    assert!(c.key_fits("urgent_tags"));
    assert_eq!(c.get("urgent_tags"), Ok(JsonValue::unsigned(0)));
    assert_eq!(c.get("client_count"), Ok(JsonValue::unsigned(2)));
    c.report(7, OutputEvent::Tag { tag: 1, state: 0, clients: u32::MAX, focused: 0 });
    c.report(7, OutputEvent::Frame);
    assert!(!c.key_fits("client_count"));
}
