//! A backend without a window manager: it walks through workspaces on a timer.

use crate::capability::{AccessMode, Capability, CapabilityManifest, CapabilityView};
use crate::event::{EventView, RawEvent};
use crate::names::NameSet;
use crate::text::{joined, joined3, str_eq, unit_result};
use crate::value::{
    int_json, json_as_i64, json_as_str, text_json, value_result, JsonValue, JsonView, NumberView,
};
use vstd::prelude::*;

verus! {

/// The interval between two ticks of a new backend, in milliseconds.
pub const DEFAULT_INTERVAL_MS: u64 = 2000;

/// What the mock backend holds.
pub struct MockView {
    pub workspace: int,
    pub layout: Seq<char>,
    pub interval_ms: u64,
    pub subscriptions: Set<Seq<char>>,
    pub subscribed: bool,
    pub cycle: int,
    pub stopped: bool,
}

/// The layouts that the mock backend knows.
pub open spec fn known_layout(layout: Seq<char>) -> bool {
    layout == "master"@ || layout == "grid"@ || layout == "float"@
}

/// The workspace is one of ten, the layout one of three.
pub open spec fn mock_well_formed(m: MockView) -> bool {
    1 <= m.workspace <= 10 && known_layout(m.layout)
}

/// A backend that simulates a window manager with ten workspaces and three
/// layouts.
#[derive(Debug)]
pub struct MockBackend {
    workspace: i64,
    layout: String,
    event_interval_ms: u64,
    subscriptions: NameSet,
    subscribed: bool,
    cycle: u64,
    stopped: bool,
}

impl View for MockBackend {
    type V = MockView;

    closed spec fn view(&self) -> MockView {
        MockView {
            workspace: self.workspace as int,
            layout: self.layout@,
            interval_ms: self.event_interval_ms,
            subscriptions: self.subscriptions@,
            subscribed: self.subscribed,
            cycle: self.cycle as int,
            stopped: self.stopped,
        }
    }
}

/// What asking for the next event comes to.
#[derive(Debug, Clone, Copy, PartialEq, Eq, Structural)]
pub enum MockPoll {
    /// The backend was stopped: no event will come.
    Ended,
    /// Nothing was subscribed yet: asking is an error.
    NotSubscribed,
    /// No event name is subscribed: wait without end.
    Idle,
    /// Wait for the next tick, then call `tick`.
    Tick,
}

/// What a poll of the mock brings.
pub open spec fn mock_poll(m: MockView) -> MockPoll {
    if m.stopped {
        MockPoll::Ended
    } else if !m.subscribed {
        MockPoll::NotSubscribed
    } else if m.subscriptions == Set::<Seq<char>>::empty() {
        MockPoll::Idle
    } else {
        MockPoll::Tick
    }
}

/// The backend after one tick. Every third tick moves on by one workspace, if
/// workspace changes are subscribed.
pub open spec fn mock_ticked(m: MockView) -> MockView {
    MockView {
        cycle: m.cycle + 1,
        workspace: if (m.cycle + 1) % 3 == 0 && m.subscriptions.contains("workspace_change"@) {
            m.workspace % 4 + 1
        } else {
            m.workspace
        },
        ..m
    }
}

/// The event that one tick brings.
pub open spec fn mock_tick_event(m: MockView) -> Option<EventView> {
    let cycle = m.cycle + 1;
    if cycle % 3 == 0 && m.subscriptions.contains("workspace_change"@) {
        Some(
            EventView {
                name: "workspace_change"@,
                prev: Some(Map::<Seq<char>, JsonView>::empty().insert("id"@, int_json(m.workspace))),
                curr: Some(
                    Map::<Seq<char>, JsonView>::empty().insert(
                        "id"@,
                        int_json(m.workspace % 4 + 1),
                    ).insert("monitor"@, text_json("MOCK-1"@)),
                ),
            },
        )
    } else if cycle % 3 == 1 && m.subscriptions.contains("window_update"@) {
        Some(
            EventView {
                name: "window_update"@,
                prev: None,
                curr: Some(
                    Map::<Seq<char>, JsonView>::empty().insert(
                        "window_count"@,
                        int_json(cycle % 5 + 1),
                    ).insert("workspace"@, int_json(m.workspace)),
                ),
            },
        )
    } else if cycle % 3 == 2 && m.subscriptions.contains("layout_hint"@) {
        Some(
            EventView {
                name: "layout_hint"@,
                prev: None,
                curr: Some(
                    Map::<Seq<char>, JsonView>::empty().insert(
                        "layout"@,
                        text_json(m.layout),
                    ).insert("workspace"@, int_json(m.workspace)),
                ),
            },
        )
    } else {
        None
    }
}

/// What a key reads.
pub open spec fn mock_get(m: MockView, key: Seq<char>) -> Result<JsonView, Seq<char>> {
    if key == "workspace"@ {
        Ok(int_json(m.workspace))
    } else if key == "layout"@ {
        Ok(text_json(m.layout))
    } else if key == "monitor"@ {
        Ok(text_json("MOCK-1"@))
    } else if key == "window_count"@ {
        Ok(int_json(3))
    } else {
        Err("Unknown key: "@ + key)
    }
}

/// Why a key cannot be set to a value, if it cannot.
pub open spec fn mock_set_error(key: Seq<char>, value: JsonView) -> Option<Seq<char>> {
    if key == "workspace"@ {
        match json_as_i64(value) {
            Some(ws) => if 1 <= ws <= 10 {
                None
            } else {
                Some("workspace must be 1-10"@)
            },
            None => Some("workspace must be an integer"@),
        }
    } else if key == "layout"@ {
        match json_as_str(value) {
            Some(layout) => if known_layout(layout) {
                None
            } else {
                Some("layout must be one of: [\"master\", \"grid\", \"float\"]"@)
            },
            None => Some("layout must be a string"@),
        }
    } else if key == "monitor"@ || key == "window_count"@ {
        Some("'"@ + key + "' is read-only"@)
    } else {
        Some("Unknown key: "@ + key)
    }
}

/// The backend after a key was set to a value that it accepts.
pub open spec fn mock_set(m: MockView, key: Seq<char>, value: JsonView) -> MockView {
    if mock_set_error(key, value) is Some {
        m
    } else if key == "workspace"@ {
        MockView { workspace: json_as_i64(value)->0 as int, ..m }
    } else {
        MockView { layout: json_as_str(value)->0, ..m }
    }
}

/// What the mock backend declares.
pub open spec fn mock_manifest() -> Seq<CapabilityView> {
    seq![
        CapabilityView {
            name: "workspace"@,
            access: AccessMode::ReadWrite,
            description: Some("Current workspace number (1-10)"@),
        },
        CapabilityView {
            name: "layout"@,
            access: AccessMode::ReadWrite,
            description: Some("Window layout mode (master, grid, float)"@),
        },
        CapabilityView {
            name: "monitor"@,
            access: AccessMode::ReadOnly,
            description: Some("Current monitor name"@),
        },
        CapabilityView {
            name: "window_count"@,
            access: AccessMode::ReadOnly,
            description: Some("Number of windows on current workspace"@),
        },
    ]
}

/// A new mock backend.
pub open spec fn mock_initial() -> MockView {
    MockView {
        workspace: 1,
        layout: "master"@,
        interval_ms: DEFAULT_INTERVAL_MS,
        subscriptions: Set::empty(),
        subscribed: false,
        cycle: 0,
        stopped: false,
    }
}

impl MockBackend {
    #[verifier::type_invariant]
    spec fn inv(self) -> bool {
        mock_well_formed(self@)
    }

    /// A backend on the first workspace, with the "master" layout.
    pub fn new() -> (m: MockBackend)
        ensures
            m@ == mock_initial(),
    {
        MockBackend {
            workspace: 1,
            layout: "master".to_owned(),
            event_interval_ms: DEFAULT_INTERVAL_MS,
            subscriptions: NameSet::new(),
            subscribed: false,
            cycle: 0,
            stopped: false,
        }
    }

    /// Sets the interval between two ticks.
    pub fn with_interval(self, ms: u64) -> (m: MockBackend)
        ensures
            m@ == (MockView { interval_ms: ms, ..self@ }),
    {
        let mut m = self;
        proof {
            use_type_invariant(&m);
        }
        m.event_interval_ms = ms;
        m
    }

    /// The interval between two ticks, in milliseconds.
    pub fn interval_ms(&self) -> (ms: u64)
        ensures
            ms == self@.interval_ms,
    {
        self.event_interval_ms
    }

    /// Stops the event stream.
    pub fn stop(&mut self)
        ensures
            final(self)@ == (MockView { stopped: true, ..old(self)@ }),
    {
        proof {
            use_type_invariant(&*self);
        }
        self.stopped = true;
    }

    /// The name of the adapter.
    pub fn name(&self) -> (r: &'static str)
        ensures
            r@ == "mock"@,
    {
        "mock"
    }

    /// What the backend supports.
    pub fn manifest(&self) -> (m: CapabilityManifest)
        ensures
            m@ == mock_manifest(),
    {
        let m = CapabilityManifest::new().add(
            Capability::read_write("workspace").with_description("Current workspace number (1-10)"),
        ).add(
            Capability::read_write("layout").with_description(
                "Window layout mode (master, grid, float)",
            ),
        ).add(Capability::read_only("monitor").with_description("Current monitor name")).add(
            Capability::read_only("window_count").with_description(
                "Number of windows on current workspace",
            ),
        );
        assert(m@ =~= mock_manifest());
        m
    }

    /// Chooses the events to emit from now on.
    pub fn subscribe(&mut self, subscriptions: NameSet)
        ensures
            final(self)@ == (MockView {
                subscriptions: subscriptions@,
                subscribed: true,
                ..old(self)@
            }),
    {
        proof {
            use_type_invariant(&*self);
        }
        self.subscriptions = subscriptions;
        self.subscribed = true;
    }

    /// What asking for the next event comes to.
    pub fn poll(&self) -> (r: MockPoll)
        ensures
            r == mock_poll(self@),
    {
        if self.stopped {
            MockPoll::Ended
        } else if !self.subscribed {
            MockPoll::NotSubscribed
        } else if self.subscriptions.is_empty() {
            MockPoll::Idle
        } else {
            MockPoll::Tick
        }
    }

    /// Whether one more tick can be counted.
    pub fn can_tick(&self) -> (r: bool)
        ensures
            r == (self@.cycle < u64::MAX),
    {
        self.cycle < u64::MAX
    }

    /// One tick of the timer.
    pub fn tick(&mut self) -> (r: Option<RawEvent>)
        requires
            old(self)@.cycle < u64::MAX,
        ensures
            final(self)@ == mock_ticked(old(self)@),
            match r {
                Some(e) => mock_tick_event(old(self)@) == Some(e@),
                None => mock_tick_event(old(self)@) is None,
            },
    {
        proof {
            use_type_invariant(&*self);
        }
        self.cycle = self.cycle + 1;
        let phase: u64 = self.cycle % 3;
        if phase == 0 && self.subscriptions.contains("workspace_change") {
            let prev_ws: i64 = self.workspace;
            let curr_ws: i64 = prev_ws % 4 + 1;
            self.workspace = curr_ws;
            Some(
                RawEvent::new("workspace_change").with_prev("id", JsonValue::signed(prev_ws)).with_curr(
                    "id",
                    JsonValue::signed(curr_ws),
                ).with_curr("monitor", JsonValue::text("MOCK-1")),
            )
        } else if phase == 1 && self.subscriptions.contains("window_update") {
            let count: i64 = (self.cycle % 5) as i64 + 1;
            Some(
                RawEvent::new("window_update").with_curr(
                    "window_count",
                    JsonValue::signed(count),
                ).with_curr("workspace", JsonValue::signed(self.workspace)),
            )
        } else if phase == 2 && self.subscriptions.contains("layout_hint") {
            Some(
                RawEvent::new("layout_hint").with_curr(
                    "layout",
                    JsonValue::text(self.layout.as_str()),
                ).with_curr("workspace", JsonValue::signed(self.workspace)),
            )
        } else {
            None
        }
    }

    /// Reads a key.
    pub fn get(&self, key: &str) -> (r: Result<JsonValue, String>)
        ensures
            value_result(r) == mock_get(self@, key@),
    {
        if str_eq(key, "workspace") {
            Ok(JsonValue::signed(self.workspace))
        } else if str_eq(key, "layout") {
            Ok(JsonValue::text(self.layout.as_str()))
        } else if str_eq(key, "monitor") {
            Ok(JsonValue::text("MOCK-1"))
        } else if str_eq(key, "window_count") {
            Ok(JsonValue::signed(3))
        } else {
            Err(joined("Unknown key: ", key))
        }
    }

    /// Sets a key.
    pub fn set(&mut self, key: &str, value: &JsonValue) -> (r: Result<(), String>)
        ensures
            unit_result(r) == (match mock_set_error(key@, value@) {
                Some(e) => Err(e),
                None => Ok(()),
            }),
            final(self)@ == mock_set(old(self)@, key@, value@),
    {
        if str_eq(key, "workspace") {
            match value.as_i64() {
                None => Err("workspace must be an integer".to_owned()),
                Some(ws) => {
                    if ws < 1 || ws > 10 {
                        Err("workspace must be 1-10".to_owned())
                    } else {
                        proof {
                            use_type_invariant(&*self);
                        }
                        self.workspace = ws;
                        Ok(())
                    }
                },
            }
        } else if str_eq(key, "layout") {
            match value.as_str() {
                None => Err("layout must be a string".to_owned()),
                Some(layout) => {
                    if !str_eq(layout, "master") && !str_eq(layout, "grid") && !str_eq(
                        layout,
                        "float",
                    ) {
                        Err("layout must be one of: [\"master\", \"grid\", \"float\"]".to_owned())
                    } else {
                        proof {
                            use_type_invariant(&*self);
                        }
                        self.layout = layout.to_owned();
                        Ok(())
                    }
                },
            }
        } else if str_eq(key, "monitor") || str_eq(key, "window_count") {
            Err(joined3("'", key, "' is read-only"))
        } else {
            Err(joined("Unknown key: ", key))
        }
    }

    /// Ends the backend.
    pub fn shutdown(&mut self)
        ensures
            final(self)@ == (MockView { stopped: true, ..old(self)@ }),
    {
        self.stop();
    }
}

impl Default for MockBackend {
    fn default() -> (m: MockBackend)
        ensures
            m@ == mock_initial(),
    {
        MockBackend::new()
    }
}

/// A new mock backend.
pub fn create_backend() -> (m: MockBackend)
    ensures
        m@ == mock_initial(),
{
    MockBackend::new()
}

/// A value that was set is read back.
pub proof fn set_is_read_back(m: MockView, key: Seq<char>, value: JsonView)
    requires
        mock_set_error(key, value) is None,
    ensures
        mock_get(mock_set(m, key, value), key) == Ok::<JsonView, Seq<char>>(value),
{
    reveal_strlit("workspace");
    reveal_strlit("layout");
}

/// Setting one key leaves every other key as it was.
pub proof fn set_keeps_other_keys(m: MockView, key: Seq<char>, value: JsonView, other: Seq<char>)
    requires
        other != key,
    ensures
        mock_get(mock_set(m, key, value), other) == mock_get(m, other),
{
}

/// A value that is refused changes nothing.
pub proof fn refused_set_changes_nothing(m: MockView, key: Seq<char>, value: JsonView)
    requires
        mock_set_error(key, value) is Some,
    ensures
        mock_set(m, key, value) == m,
{
}

/// The workspace stays one of ten and the layout one of three, whatever is set
/// and however often the timer ticks.
pub proof fn well_formed_is_kept(m: MockView, key: Seq<char>, value: JsonView)
    ensures
        mock_well_formed(mock_initial()),
        mock_well_formed(m) ==> mock_well_formed(mock_ticked(m)),
        mock_well_formed(m) ==> mock_well_formed(mock_set(m, key, value)),
{
}

/// Exactly the keys that are declared writable can be set to some value, and
/// exactly the declared keys can be read.
pub proof fn manifest_tells_the_truth(m: MockView, key: Seq<char>)
    ensures
        (exists|v: JsonView| mock_set_error(key, v) is None) <==> (exists|i: int|
            0 <= i < mock_manifest().len() && (#[trigger] mock_manifest()[i]).name == key
                && mock_manifest()[i].access == AccessMode::ReadWrite),
        mock_get(m, key) is Ok <==> (exists|i: int|
            0 <= i < mock_manifest().len() && (#[trigger] mock_manifest()[i]).name == key),
{
    reveal_strlit("workspace");
    reveal_strlit("layout");
    reveal_strlit("monitor");
    reveal_strlit("window_count");
    assert("workspace"@.len() == 9 && "layout"@.len() == 6 && "monitor"@.len() == 7
        && "window_count"@.len() == 12);
    let caps = mock_manifest();
    assert(caps[0].name == "workspace"@ && caps[1].name == "layout"@ && caps[2].name == "monitor"@
        && caps[3].name == "window_count"@);
    if key == "workspace"@ {
        assert(mock_set_error(key, int_json(1)) is None);
    } else if key == "layout"@ {
        assert(mock_set_error(key, text_json("grid"@)) is None);
    }
}

/// From the first four workspaces the timer leads through all four, in turn.
pub proof fn workspaces_go_round(m: MockView)
    requires
        1 <= m.workspace <= 4,
        m.cycle % 3 == 2,
        m.subscriptions.contains("workspace_change"@),
    ensures
        mock_ticked(m).workspace == (if m.workspace == 4 {
            1
        } else {
            m.workspace + 1
        }),
{
}

/// The simulated window manager is read as it is: its workspace, its layout, one monitor
/// and three windows.
pub proof fn the_mock_is_read(m: MockView, key: Seq<char>)
    ensures
        mock_get(m, "workspace"@) == Ok::<JsonView, Seq<char>>(
            JsonView::Number(NumberView::Int(m.workspace)),
        ),
        mock_get(m, "layout"@) == Ok::<JsonView, Seq<char>>(JsonView::Str(m.layout)),
        mock_get(m, "monitor"@) == Ok::<JsonView, Seq<char>>(JsonView::Str("MOCK-1"@)),
        mock_get(m, "window_count"@) == Ok::<JsonView, Seq<char>>(
            JsonView::Number(NumberView::Int(3)),
        ),
        key != "workspace"@ && key != "layout"@ && key != "monitor"@ && key != "window_count"@
            ==> mock_get(m, key) == Err::<JsonView, Seq<char>>("Unknown key: "@ + key),
{
    reveal_strlit("workspace");
    reveal_strlit("layout");
    reveal_strlit("monitor");
    reveal_strlit("window_count");
    assert("workspace"@.len() == 9);
    assert("layout"@.len() == 6);
    assert("monitor"@.len() == 7);
    assert("window_count"@.len() == 12);
}

/// The workspace takes the numbers from 1 to 10, and the layout three names. Nothing else
/// is taken, and why is told.
pub proof fn the_mock_takes(n: i64, layout: Seq<char>, value: JsonView, key: Seq<char>)
    ensures
        1 <= n <= 10 ==> mock_set_error("workspace"@,
            JsonView::Number(NumberView::Int(n as int))) is None,
        n < 1 || n > 10 ==> mock_set_error(
            "workspace"@,
            JsonView::Number(NumberView::Int(n as int)),
        ) == Some("workspace must be 1-10"@),
        value !is Number ==> mock_set_error("workspace"@, value) == Some(
            "workspace must be an integer"@,
        ),
        mock_set_error("layout"@, JsonView::Str("master"@)) is None,
        mock_set_error("layout"@, JsonView::Str("grid"@)) is None,
        mock_set_error("layout"@, JsonView::Str("float"@)) is None,
        layout != "master"@ && layout != "grid"@ && layout != "float"@ ==> mock_set_error(
            "layout"@,
            JsonView::Str(layout),
        ) == Some("layout must be one of: [\"master\", \"grid\", \"float\"]"@),
        value !is Str ==> mock_set_error("layout"@, value) == Some("layout must be a string"@),
        mock_set_error("monitor"@, value) == Some("'"@ + "monitor"@ + "' is read-only"@),
        mock_set_error("window_count"@, value) == Some("'"@ + "window_count"@ + "' is read-only"@),
        key != "workspace"@ && key != "layout"@ && key != "monitor"@ && key != "window_count"@
            ==> mock_set_error(key, value) == Some("Unknown key: "@ + key),
{
    reveal_strlit("workspace");
    reveal_strlit("layout");
    reveal_strlit("monitor");
    reveal_strlit("window_count");
    assert("workspace"@.len() == 9);
    assert("layout"@.len() == 6);
    assert("monitor"@.len() == 7);
    assert("window_count"@.len() == 12);
}

/// What is set is what changes, and nothing else.
pub proof fn the_mock_is_set(m: MockView, n: i64, layout: Seq<char>)
    ensures
        1 <= n <= 10 ==> mock_set(m, "workspace"@, JsonView::Number(NumberView::Int(n as int))) == (
        MockView { workspace: n as int, ..m }),
        layout == "master"@ || layout == "grid"@ || layout == "float"@ ==> mock_set(
            m,
            "layout"@,
            JsonView::Str(layout),
        ) == (MockView { layout, ..m }),
{
    reveal_strlit("workspace");
    reveal_strlit("layout");
    reveal_strlit("monitor");
    reveal_strlit("window_count");
    assert("workspace"@.len() == 9);
    assert("layout"@.len() == 6);
    assert("monitor"@.len() == 7);
    assert("window_count"@.len() == 12);
}

/// The timer brings a change of the workspace at every third tick, and an update of the
/// windows and a hint of the layout at the ticks after it, as far as they are subscribed.
/// The workspace that is told is the one that is shown from then on.
pub proof fn the_timer_tells(m: MockView)
    requires
        m.cycle >= 0,
    ensures
        mock_ticked(m).cycle == m.cycle + 1,
        mock_ticked(m) == (MockView {
            cycle: m.cycle + 1,
            workspace: mock_ticked(m).workspace,
            ..m
        }),
        (m.cycle + 1) % 3 == 0 && m.subscriptions.contains("workspace_change"@)
            ==> mock_tick_event(m)
            == Some(
            EventView {
                name: "workspace_change"@,
                prev: Some(map!["id"@ => JsonView::Number(NumberView::Int(m.workspace))]),
                curr: Some(
                    map![
                        "id"@ => JsonView::Number(NumberView::Int(mock_ticked(m).workspace)),
                        "monitor"@ => JsonView::Str("MOCK-1"@),
                    ],
                ),
            },
        ) && mock_ticked(m).workspace == 1 + m.workspace % 4,
        (m.cycle + 1) % 3 == 1 && m.subscriptions.contains("window_update"@) ==> mock_tick_event(m)
            == Some(
            EventView {
                name: "window_update"@,
                prev: None,
                curr: Some(
                    map![
                        "window_count"@ => JsonView::Number(NumberView::Int(1 + (m.cycle + 1) % 5)),
                        "workspace"@ => JsonView::Number(NumberView::Int(m.workspace)),
                    ],
                ),
            },
        ),
        (m.cycle + 1) % 3 == 2 && m.subscriptions.contains("layout_hint"@) ==> mock_tick_event(m)
            == Some(
            EventView {
                name: "layout_hint"@,
                prev: None,
                curr: Some(
                    map![
                        "layout"@ => JsonView::Str(m.layout),
                        "workspace"@ => JsonView::Number(NumberView::Int(m.workspace)),
                    ],
                ),
            },
        ),
        (m.cycle + 1) % 3 == 0 && !m.subscriptions.contains("workspace_change"@)
            ==> mock_tick_event(
            m,
        ) is None,
        (m.cycle + 1) % 3 == 1 && !m.subscriptions.contains("window_update"@) ==> mock_tick_event(
            m,
        ) is None,
        (m.cycle + 1) % 3 == 2 && !m.subscriptions.contains("layout_hint"@) ==> mock_tick_event(
            m,
        ) is None,
        mock_tick_event(m) is None || mock_tick_event(m)->0.name != "workspace_change"@
            ==> mock_ticked(m).workspace == m.workspace,
{
    assert(m.workspace % 4 + 1 == 1 + m.workspace % 4);
}

/// Events come only while the simulation runs, after the subscription, and if something is
/// subscribed.
pub proof fn the_mock_is_polled(m: MockView, name: Seq<char>)
    ensures
        m.stopped ==> mock_poll(m) == MockPoll::Ended,
        !m.stopped && !m.subscribed ==> mock_poll(m) == MockPoll::NotSubscribed,
        !m.stopped && m.subscribed && m.subscriptions.contains(name) ==> mock_poll(m)
            == MockPoll::Tick,
        !m.stopped && m.subscribed && (forall|n: Seq<char>| !#[trigger] m.subscriptions.contains(n))
            ==> mock_poll(m) == MockPoll::Idle,
{
    if forall|n: Seq<char>| !#[trigger] m.subscriptions.contains(n) {
        assert(m.subscriptions =~= Set::<Seq<char>>::empty());
    }
}

/// The simulation starts on the first workspace with the first layout, runs, and has no
/// subscriptions.
pub proof fn the_mock_starts(name: Seq<char>)
    ensures
        mock_initial().workspace == 1,
        mock_initial().layout == "master"@,
        !mock_initial().subscribed && !mock_initial().stopped,
        !mock_initial().subscriptions.contains(name),
        mock_initial().cycle == 0,
{
}

} // verus!
