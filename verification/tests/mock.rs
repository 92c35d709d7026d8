use middlesox::actor::{
    get_reply, manifest_reply, set_reply, shutdown_reply, Actor, ActorInput, ActorStep,
    ChannelReply,
};
use middlesox::capability::{Capability, CapabilityManifest};
use middlesox::event::RawEvent;
use middlesox::mock::{create_backend, MockBackend, MockPoll};
use middlesox::names::NameSet;
use middlesox::value::JsonValue;

fn subscribed(names: &[&str]) -> MockBackend {
    let mut subscriptions = NameSet::new();
    for name in names {
        subscriptions.insert(name);
    }
    let mut backend = MockBackend::new();
    backend.subscribe(subscriptions);
    backend
}

#[test]
fn lib_test_mock_get_set() {
    let mut backend = MockBackend::new();

    let ws = backend.get("workspace").unwrap();
    assert_eq!(ws, JsonValue::signed(1));

    backend.set("workspace", &JsonValue::signed(5)).unwrap();
    let ws = backend.get("workspace").unwrap();
    assert_eq!(ws, JsonValue::signed(5));

    backend.set("layout", &JsonValue::text("grid")).unwrap();
    let layout = backend.get("layout").unwrap();
    assert_eq!(layout, JsonValue::text("grid"));
}

#[test]
fn lib_test_mock_readonly() {
    let mut backend = MockBackend::new();

    let result = backend.set("monitor", &JsonValue::text("test"));
    assert!(result.is_err());
}

#[test]
fn mock_test_mock_get_set() {
    let mut backend = create_backend();

    let ws = backend.get("workspace").unwrap();
    assert_eq!(ws, JsonValue::signed(1));

    backend.set("workspace", &JsonValue::signed(5)).unwrap();
    let ws = backend.get("workspace").unwrap();
    assert_eq!(ws, JsonValue::signed(5));

    backend.set("layout", &JsonValue::text("grid")).unwrap();
    let layout = backend.get("layout").unwrap();
    assert_eq!(layout, JsonValue::text("grid"));
}

#[test]
fn mock_test_mock_readonly() {
    let mut backend = create_backend();

    let result = backend.set("monitor", &JsonValue::text("test"));
    assert!(result.is_err());
}

#[test]
fn refused_settings_change_nothing() {
    let mut backend = MockBackend::new();
    let mut err = |key: &str, value: JsonValue| backend.set(key, &value).unwrap_err();
    assert_eq!(err("workspace", JsonValue::signed(0)), "workspace must be 1-10");
    assert_eq!(err("workspace", JsonValue::signed(11)), "workspace must be 1-10");
    assert_eq!(err("workspace", JsonValue::text("1")), "workspace must be an integer");
    assert_eq!(
        err("layout", JsonValue::text("tile")),
        "layout must be one of: [\"master\", \"grid\", \"float\"]"
    );
    assert_eq!(err("layout", JsonValue::Null), "layout must be a string");
    assert_eq!(err("monitor", JsonValue::Null), "'monitor' is read-only");
    assert_eq!(err("window_count", JsonValue::signed(1)), "'window_count' is read-only");
    assert_eq!(err("other", JsonValue::Null), "Unknown key: other");
    assert_eq!(backend.get("workspace"), Ok(JsonValue::signed(1)));
    assert_eq!(backend.get("layout"), Ok(JsonValue::text("master")));
    assert_eq!(backend.get("window_count"), Ok(JsonValue::signed(3)));
    assert_eq!(backend.get("other"), Err("Unknown key: other".to_string()));
}

#[test]
fn manifest_and_writes_agree() {
    let mut backend = MockBackend::new();
    let manifest = backend.manifest();
    assert_eq!(backend.name(), "mock");
    assert_eq!(manifest.len(), 4);
    for cap in manifest.iter() {
        assert!(backend.get(&cap.name).is_ok());
        let writes = [JsonValue::signed(2), JsonValue::text("float")];
        assert_eq!(cap.is_writable(), writes.iter().any(|v| backend.set(&cap.name, v).is_ok()));
    }
}

#[test]
fn workspaces_go_round_every_third_tick() {
    let mut backend = subscribed(&["workspace_change"]);
    let mut seen = Vec::new();
    for _ in 0..12 {
        if let Some(event) = backend.tick() {
            assert_eq!(event.name, "workspace_change");
            assert_eq!(event.get_curr_str("monitor"), Some("MOCK-1"));
            seen.push((event.get_prev_i64("id").unwrap(), event.get_curr_i64("id").unwrap()));
        }
    }
    assert_eq!(seen, vec![(1, 2), (2, 3), (3, 4), (4, 1)]);
}

#[test]
fn other_ticks_tell_windows_and_layout() {
    let mut backend = subscribed(&["window_update", "layout_hint"]);
    let first = backend.tick().unwrap();
    assert_eq!(first.name, "window_update");
    assert!(first.prev.is_none());
    assert_eq!(first.get_curr_i64("window_count"), Some(2));
    assert_eq!(first.get_curr_i64("workspace"), Some(1));
    let second = backend.tick().unwrap();
    assert_eq!(second.name, "layout_hint");
    assert_eq!(second.get_curr_str("layout"), Some("master"));
    assert!(backend.tick().is_none());
    let fourth = backend.tick().unwrap();
    assert_eq!(fourth.get_curr_i64("window_count"), Some(5));
    assert_eq!(backend.get("workspace"), Ok(JsonValue::signed(1)));
}

#[test]
fn polls_before_and_after() {
    let mut backend = MockBackend::default().with_interval(50);
    assert_eq!(backend.interval_ms(), 50);
    assert_eq!(MockBackend::new().interval_ms(), 2000);
    assert_eq!(backend.poll(), MockPoll::NotSubscribed);
    backend.subscribe(NameSet::new());
    assert_eq!(backend.poll(), MockPoll::Idle);
    let mut backend = subscribed(&["layout_hint"]);
    assert_eq!(backend.poll(), MockPoll::Tick);
    backend.shutdown();
    assert_eq!(backend.poll(), MockPoll::Ended);
}

#[test]
fn the_actor_hands_events_on() {
    let mut actor = Actor::new();
    for name in ["a", "b"] {
        let event = RawEvent::at(name, 7).with_curr("id", JsonValue::signed(1));
        match actor.step(ActorInput::Event(event)) {
            ActorStep::Forward(event) => {
                assert_eq!(event.name, name);
                assert_eq!(event.timestamp, 7);
                assert_eq!(event.get_curr_i64("id"), Some(1));
            }
            step => panic!("{step:?}"),
        }
        assert!(matches!(actor.step(ActorInput::Forwarded { taken: true }), ActorStep::Wait));
    }
}

#[test]
fn the_actor_replies_with_results() {
    let mut actor = Actor::new();
    match actor.step(ActorInput::Get { key: "k".into() }) {
        ActorStep::CallGet { key } => assert_eq!(key, "k"),
        step => panic!("{step:?}"),
    }
    match actor.step(ActorInput::Read(Ok(JsonValue::signed(3)))) {
        ActorStep::ReplyGet(result) => assert_eq!(result, Ok(JsonValue::signed(3))),
        step => panic!("{step:?}"),
    }
    match actor.step(ActorInput::Put { key: "k".into(), value: JsonValue::Null }) {
        ActorStep::CallSet { key, value } => {
            assert_eq!(key, "k");
            assert_eq!(value, JsonValue::Null);
        }
        step => panic!("{step:?}"),
    }
    match actor.step(ActorInput::Written(Err("no".into()))) {
        ActorStep::ReplySet(result) => assert_eq!(result, Err("no".to_string())),
        step => panic!("{step:?}"),
    }
    assert!(matches!(actor.step(ActorInput::Manifest), ActorStep::CallManifest));
    let manifest = CapabilityManifest::new().add(Capability::read_only("k"));
    match actor.step(ActorInput::Listed(manifest)) {
        ActorStep::ReplyManifest(manifest) => assert!(manifest.find("k").is_some()),
        step => panic!("{step:?}"),
    }
    // A result that nobody waits for is ignored
    assert!(matches!(actor.step(ActorInput::Written(Ok(()))), ActorStep::Wait));
}

#[test]
fn the_actor_shuts_the_backend_down_once() {
    let mut actor = Actor::new();
    assert!(matches!(actor.step(ActorInput::Shutdown), ActorStep::CallShutdown));
    match actor.step(ActorInput::Stopped(Err("late".into()))) {
        ActorStep::ReplyShutdown(result) => assert_eq!(result, Err("late".to_string())),
        step => panic!("{step:?}"),
    }
    assert!(matches!(actor.step(ActorInput::Shutdown), ActorStep::Wait));

    for last in [
        ActorInput::EventsEnded,
        ActorInput::EventsFailed,
        ActorInput::CommandsClosed,
    ] {
        let mut actor = Actor::new();
        assert!(matches!(actor.step(last), ActorStep::CallShutdown));
        assert!(matches!(actor.step(ActorInput::Stopped(Ok(()))), ActorStep::Leave(Ok(()))));
    }
    let mut actor = Actor::new();
    let event = ActorInput::Event(RawEvent::new("a"));
    assert!(matches!(actor.step(event), ActorStep::Forward(_)));
    assert!(matches!(actor.step(ActorInput::Forwarded { taken: false }), ActorStep::CallShutdown));
}

#[test]
fn replies_of_the_actor() {
    let closed = "Adapter task closed".to_string();
    let dropped = "Adapter task dropped reply".to_string();
    assert_eq!(get_reply(ChannelReply::Closed), Err(closed.clone()));
    assert_eq!(get_reply(ChannelReply::Dropped), Err(dropped.clone()));
    assert_eq!(get_reply(ChannelReply::Answered(Ok(JsonValue::signed(3)))), Ok(JsonValue::signed(3)));
    assert_eq!(get_reply(ChannelReply::Answered(Err("no".into()))), Err("no".to_string()));
    assert_eq!(set_reply(ChannelReply::Closed), Err(closed.clone()));
    assert_eq!(set_reply(ChannelReply::Dropped), Err(dropped.clone()));
    assert_eq!(set_reply(ChannelReply::Answered(Ok(()))), Ok(()));
    assert_eq!(manifest_reply(ChannelReply::Closed).unwrap_err(), closed);
    assert_eq!(manifest_reply(ChannelReply::Dropped).unwrap_err(), dropped);
    assert!(manifest_reply(ChannelReply::Answered(CapabilityManifest::new())).unwrap().is_empty());
    assert_eq!(shutdown_reply(ChannelReply::Closed), Ok(()));
    assert_eq!(shutdown_reply(ChannelReply::Dropped), Ok(()));
    assert_eq!(shutdown_reply(ChannelReply::Answered(Err("x".into()))), Err("x".to_string()));
}
