//! The Hyprland compositor: its event stream, its queries and its dispatchers.
//!
//! Hyprland has two sockets. On one it takes a request per connection and
//! answers until it closes the connection: `j/<query>` for JSON, `dispatch
//! <args>` for a change. On the other it writes one event per line, as
//! `name>>data`. Events here carry the same names as those of the other
//! compositors where the notions agree, and both the state before and after.

use crate::capability::{AccessMode, Capability, CapabilityManifest, CapabilityView};
use crate::event::{EventView, RawEvent};
use crate::json::{json_parse, parse_json};
use crate::names::{texts, NameSet};
use crate::paths::{choose_first, first_found, join_path, joined_path};
use crate::text::{
    all_white, ascii_white_space, i64_text, i64_to_text, int_text, joined, joined3, parse_i64,
    parts_are_read_back, separators_are_found, split_at_first, split_once, str_eq, trim, trim_end,
    trimmed, trimmed_end, trimming_keeps_the_text, unit_result,
};
use crate::value::{
    int_json, json_as_bool, json_as_i64, json_as_str, json_elements, json_member, one_field,
    opt_text, state_of_one, state_of_two, text_json, two_fields, value_result, value_view,
    values_view, JsonValue, JsonView, NumberView, StateMap,
};
use vstd::prelude::*;

verus! {

/// How long a command may take, in seconds.
pub const CMD_TIMEOUT_SECS: u64 = 10;

/// How long connecting to the event socket may take, in seconds.
pub const CONNECT_TIMEOUT_SECS: u64 = 10;

/// What is known of the compositor from the events so far.
pub struct TranslatorView {
    pub workspace_id: int,
    pub workspace_name: Seq<char>,
    pub title: Seq<char>,
    pub appid: Seq<char>,
    pub output: Seq<char>,
    pub output_workspace: Seq<char>,
    pub fullscreen: bool,
    pub keymode: Seq<char>,
    pub kb_layout: Seq<char>,
}

/// Turns lines of the event socket into events. It keeps what it was told last,
/// so that an event carries the state before it.
#[derive(Debug)]
pub struct EventTranslator {
    workspace_id: i64,
    workspace_name: String,
    title: String,
    appid: String,
    output: String,
    output_workspace: String,
    fullscreen: bool,
    keymode: String,
    kb_layout: String,
}

impl View for EventTranslator {
    type V = TranslatorView;

    closed spec fn view(&self) -> TranslatorView {
        TranslatorView {
            workspace_id: self.workspace_id as int,
            workspace_name: self.workspace_name@,
            title: self.title@,
            appid: self.appid@,
            output: self.output@,
            output_workspace: self.output_workspace@,
            fullscreen: self.fullscreen,
            keymode: self.keymode@,
            kb_layout: self.kb_layout@,
        }
    }
}

/// Nothing is known yet.
pub open spec fn nothing_known() -> TranslatorView {
    TranslatorView {
        workspace_id: 0,
        workspace_name: ""@,
        title: ""@,
        appid: ""@,
        output: ""@,
        output_workspace: ""@,
        fullscreen: false,
        keymode: ""@,
        kb_layout: ""@,
    }
}

/// An id and a name, separated by the first comma.
pub open spec fn id_and_name(data: Seq<char>) -> Option<(i64, Seq<char>)> {
    match split_at_first(data, ","@) {
        Some((id, name)) => match i64_text(id) {
            Some(id) => Some((id, name)),
            None => None,
        },
        None => None,
    }
}

/// Four parts, separated by the first three commas.
pub open spec fn four_parts(data: Seq<char>) -> Option<
    (Seq<char>, Seq<char>, Seq<char>, Seq<char>),
> {
    match split_at_first(data, ","@) {
        Some((a, rest)) => match split_at_first(rest, ","@) {
            Some((b, rest)) => match split_at_first(rest, ","@) {
                Some((c, d)) => Some((a, b, c, d)),
                None => None,
            },
            None => None,
        },
        None => None,
    }
}

/// The fields of a workspace.
pub open spec fn workspace_fields(id: int, name: Seq<char>) -> Map<Seq<char>, JsonView> {
    two_fields("id"@, int_json(id), "name"@, text_json(name))
}

/// An event with both states.
pub open spec fn transition(
    name: Seq<char>,
    prev: Map<Seq<char>, JsonView>,
    curr: Map<Seq<char>, JsonView>,
) -> EventView {
    EventView { name, prev: Some(prev), curr: Some(curr) }
}

/// A transition from what is known to what will be. One that changes nothing is
/// not reported.
pub open spec fn change(
    t: TranslatorView,
    after: TranslatorView,
    event: EventView,
) -> Option<(TranslatorView, EventView)> {
    if after == t {
        None
    } else {
        Some((after, event))
    }
}

/// An event of something that begins.
pub open spec fn beginning(name: Seq<char>, curr: Map<Seq<char>, JsonView>) -> EventView {
    EventView { name, prev: None, curr: Some(curr) }
}

/// An event of something that ends.
pub open spec fn ending(name: Seq<char>, prev: Map<Seq<char>, JsonView>) -> EventView {
    EventView { name, prev: Some(prev), curr: None }
}

/// What is known after an event of that name with that data, and the event to
/// report. Names that are not listed, data that is malformed and transitions that
/// change nothing bring nothing.
pub open spec fn translated_event(t: TranslatorView, name: Seq<char>, data: Seq<char>) -> Option<
    (TranslatorView, EventView),
> {
    if name == "workspacev2"@ {
        match id_and_name(data) {
            Some((id, ws)) => change(
                t,
                TranslatorView { workspace_id: id as int, workspace_name: ws, ..t },
                transition(
                    "workspace_change"@,
                    workspace_fields(t.workspace_id, t.workspace_name),
                    workspace_fields(id as int, ws),
                ),
            ),
            None => None,
        }
    } else if name == "activewindow"@ {
        match split_at_first(data, ","@) {
            Some((class, title)) => change(
                t,
                TranslatorView { title, appid: class, ..t },
                transition(
                    "focus_change"@,
                    two_fields("title"@, text_json(t.title), "appid"@, text_json(t.appid)),
                    two_fields("title"@, text_json(title), "appid"@, text_json(class)),
                ),
            ),
            None => None,
        }
    } else if name == "focusedmon"@ {
        match split_at_first(data, ","@) {
            Some((monitor, workspace)) => change(
                t,
                TranslatorView { output: monitor, output_workspace: workspace, ..t },
                transition(
                    "output_focus"@,
                    one_field("output"@, text_json(t.output)),
                    two_fields(
                        "output"@,
                        text_json(monitor),
                        "workspace"@,
                        text_json(workspace),
                    ),
                ),
            ),
            None => None,
        }
    } else if name == "fullscreen"@ {
        change(
            t,
            TranslatorView { fullscreen: trimmed(data) == "1"@, ..t },
            transition(
                "window_state_change"@,
                one_field("fullscreen"@, JsonView::Bool(t.fullscreen)),
                one_field("fullscreen"@, JsonView::Bool(trimmed(data) == "1"@)),
            ),
        )
    } else if name == "submap"@ {
        change(
            t,
            TranslatorView { keymode: data, ..t },
            transition(
                "keymode_change"@,
                one_field("keymode"@, text_json(t.keymode)),
                one_field("keymode"@, text_json(data)),
            ),
        )
    } else if name == "activelayout"@ {
        match split_at_first(data, ","@) {
            Some((_, layout)) => change(
                t,
                TranslatorView { kb_layout: layout, ..t },
                transition(
                    "keyboard_layout_change"@,
                    one_field("kb_layout"@, text_json(t.kb_layout)),
                    one_field("kb_layout"@, text_json(layout)),
                ),
            ),
            None => None,
        }
    } else if name == "openwindow"@ {
        match four_parts(data) {
            Some((address, workspace, class, title)) => Some(
                (
                    t,
                    beginning(
                        "window_open"@,
                        two_fields(
                            "address"@,
                            text_json(address),
                            "workspace"@,
                            text_json(workspace),
                        ).insert("appid"@, text_json(class)).insert("title"@, text_json(title)),
                    ),
                ),
            ),
            None => None,
        }
    } else if name == "closewindow"@ {
        Some((t, ending("window_close"@, one_field("address"@, text_json(data)))))
    } else if name == "createworkspacev2"@ {
        match id_and_name(data) {
            Some((id, ws)) => Some(
                (t, beginning("workspace_create"@, workspace_fields(id as int, ws))),
            ),
            None => None,
        }
    } else if name == "destroyworkspacev2"@ {
        match id_and_name(data) {
            Some((id, ws)) => Some(
                (t, ending("workspace_destroy"@, workspace_fields(id as int, ws))),
            ),
            None => None,
        }
    } else if name == "monitoradded"@ {
        Some((t, beginning("output_add"@, one_field("output"@, text_json(data)))))
    } else if name == "monitorremoved"@ {
        Some((t, ending("output_remove"@, one_field("output"@, text_json(data)))))
    } else {
        None
    }
}

/// What one line of the event socket brings.
pub open spec fn translated(t: TranslatorView, line: Seq<char>) -> Option<
    (TranslatorView, EventView),
> {
    match split_at_first(line, ">>"@) {
        Some((name, data)) => translated_event(t, name, data),
        None => None,
    }
}

/// What is known after a line.
pub open spec fn known_after(t: TranslatorView, line: Seq<char>) -> TranslatorView {
    match translated(t, line) {
        Some((after, _)) => after,
        None => t,
    }
}

/// The event that a line brings.
pub open spec fn event_of(t: TranslatorView, line: Seq<char>) -> Option<EventView> {
    match translated(t, line) {
        Some((_, event)) => Some(event),
        None => None,
    }
}

/// The model of an optional event.
pub open spec fn opt_event(e: Option<RawEvent>) -> Option<EventView> {
    match e {
        Some(e) => Some(e@),
        None => None,
    }
}

fn split_id(data: &str) -> (r: Option<(i64, &str)>)
    ensures
        (match r {
            Some((id, name)) => Some((id, name@)),
            None => None,
        }) == id_and_name(data@),
{
    match split_once(data, ",") {
        Some((id, name)) => match parse_i64(id) {
            Some(id) => Some((id, name)),
            None => None,
        },
        None => None,
    }
}

fn workspace_state(id: i64, name: &str) -> (m: StateMap)
    ensures
        m@ == workspace_fields(id as int, name@),
{
    state_of_two("id", JsonValue::signed(id), "name", JsonValue::text(name))
}

impl Default for EventTranslator {
    fn default() -> (t: EventTranslator)
        ensures
            t@ == nothing_known(),
    {
        EventTranslator::new()
    }
}

impl EventTranslator {
    /// A translator that knows nothing yet.
    pub fn new() -> (t: EventTranslator)
        ensures
            t@ == nothing_known(),
    {
        EventTranslator {
            workspace_id: 0,
            workspace_name: "".to_owned(),
            title: "".to_owned(),
            appid: "".to_owned(),
            output: "".to_owned(),
            output_workspace: "".to_owned(),
            fullscreen: false,
            keymode: "".to_owned(),
            kb_layout: "".to_owned(),
        }
    }

    /// Translates one line of the event socket. Unknown events, malformed lines
    /// and transitions that change nothing bring nothing.
    pub fn translate(&mut self, line: &str) -> (r: Option<RawEvent>)
        ensures
            opt_event(r) == event_of(old(self)@, line@),
            final(self)@ == known_after(old(self)@, line@),
    {
        let (name, data) = match split_once(line, ">>") {
            Some(parts) => parts,
            None => {
                return None;
            },
        };
        if str_eq(name, "workspacev2") {
            let (id, ws_name) = match split_id(data) {
                Some(parts) => parts,
                None => {
                    return None;
                },
            };
            if id == self.workspace_id && str_eq(ws_name, self.workspace_name.as_str()) {
                return None;
            }
            let prev = workspace_state(self.workspace_id, self.workspace_name.as_str());
            self.workspace_id = id;
            self.workspace_name = ws_name.to_owned();
            let curr = workspace_state(id, ws_name);
            Some(RawEvent::new("workspace_change").with_prev_state(prev).with_curr_state(curr))
        } else if str_eq(name, "activewindow") {
            let (class, title) = match split_once(data, ",") {
                Some(parts) => parts,
                None => {
                    return None;
                },
            };
            if str_eq(title, self.title.as_str()) && str_eq(class, self.appid.as_str()) {
                return None;
            }
            let prev = state_of_two(
                "title",
                JsonValue::text(self.title.as_str()),
                "appid",
                JsonValue::text(self.appid.as_str()),
            );
            self.title = title.to_owned();
            self.appid = class.to_owned();
            let curr = state_of_two(
                "title",
                JsonValue::text(title),
                "appid",
                JsonValue::text(class),
            );
            Some(RawEvent::new("focus_change").with_prev_state(prev).with_curr_state(curr))
        } else if str_eq(name, "focusedmon") {
            let (monitor, workspace) = match split_once(data, ",") {
                Some(parts) => parts,
                None => {
                    return None;
                },
            };
            if str_eq(monitor, self.output.as_str()) && str_eq(
                workspace,
                self.output_workspace.as_str(),
            ) {
                return None;
            }
            let prev = state_of_one("output", JsonValue::text(self.output.as_str()));
            self.output = monitor.to_owned();
            self.output_workspace = workspace.to_owned();
            let curr = state_of_two(
                "output",
                JsonValue::text(monitor),
                "workspace",
                JsonValue::text(workspace),
            );
            Some(RawEvent::new("output_focus").with_prev_state(prev).with_curr_state(curr))
        } else if str_eq(name, "fullscreen") {
            let fullscreen = str_eq(trim(data), "1");
            if fullscreen == self.fullscreen {
                return None;
            }
            let prev = state_of_one("fullscreen", JsonValue::boolean(self.fullscreen));
            self.fullscreen = fullscreen;
            let curr = state_of_one("fullscreen", JsonValue::boolean(fullscreen));
            Some(RawEvent::new("window_state_change").with_prev_state(prev).with_curr_state(curr))
        } else if str_eq(name, "submap") {
            if str_eq(data, self.keymode.as_str()) {
                return None;
            }
            let prev = state_of_one("keymode", JsonValue::text(self.keymode.as_str()));
            self.keymode = data.to_owned();
            let curr = state_of_one("keymode", JsonValue::text(data));
            Some(RawEvent::new("keymode_change").with_prev_state(prev).with_curr_state(curr))
        } else if str_eq(name, "activelayout") {
            let layout = match split_once(data, ",") {
                Some((_, layout)) => layout,
                None => {
                    return None;
                },
            };
            if str_eq(layout, self.kb_layout.as_str()) {
                return None;
            }
            let prev = state_of_one("kb_layout", JsonValue::text(self.kb_layout.as_str()));
            self.kb_layout = layout.to_owned();
            let curr = state_of_one("kb_layout", JsonValue::text(layout));
            Some(RawEvent::new("keyboard_layout_change").with_prev_state(prev).with_curr_state(curr))
        } else if str_eq(name, "openwindow") {
            let (address, rest) = match split_once(data, ",") {
                Some(parts) => parts,
                None => {
                    return None;
                },
            };
            let (workspace, rest) = match split_once(rest, ",") {
                Some(parts) => parts,
                None => {
                    return None;
                },
            };
            let (class, title) = match split_once(rest, ",") {
                Some(parts) => parts,
                None => {
                    return None;
                },
            };
            let mut curr = state_of_two(
                "address",
                JsonValue::text(address),
                "workspace",
                JsonValue::text(workspace),
            );
            curr.insert("appid", JsonValue::text(class));
            curr.insert("title", JsonValue::text(title));
            Some(RawEvent::new("window_open").with_curr_state(curr))
        } else if str_eq(name, "closewindow") {
            let prev = state_of_one("address", JsonValue::text(data));
            Some(RawEvent::new("window_close").with_prev_state(prev))
        } else if str_eq(name, "createworkspacev2") {
            match split_id(data) {
                Some((id, ws_name)) => Some(
                    RawEvent::new("workspace_create").with_curr_state(workspace_state(id, ws_name)),
                ),
                None => None,
            }
        } else if str_eq(name, "destroyworkspacev2") {
            match split_id(data) {
                Some((id, ws_name)) => Some(
                    RawEvent::new("workspace_destroy").with_prev_state(workspace_state(id, ws_name)),
                ),
                None => None,
            }
        } else if str_eq(name, "monitoradded") {
            let curr = state_of_one("output", JsonValue::text(data));
            Some(RawEvent::new("output_add").with_curr_state(curr))
        } else if str_eq(name, "monitorremoved") {
            let prev = state_of_one("output", JsonValue::text(data));
            Some(RawEvent::new("output_remove").with_prev_state(prev))
        } else {
            None
        }
    }
}

/// The reading end of the event socket: a translator, and the events that are
/// wanted.
#[derive(Debug)]
pub struct EventReader {
    translator: EventTranslator,
    subscriptions: NameSet,
}

impl EventReader {
    /// What the reader knows of the compositor.
    pub closed spec fn known(self) -> TranslatorView {
        self.translator@
    }

    /// The names of the events that are wanted.
    pub closed spec fn wanted(self) -> Set<Seq<char>> {
        self.subscriptions@
    }

    /// A reader that knows nothing yet.
    pub fn new(subscriptions: NameSet) -> (r: EventReader)
        ensures
            r.known() == nothing_known(),
            r.wanted() == subscriptions@,
    {
        EventReader { translator: EventTranslator::new(), subscriptions }
    }

    /// Takes one line, with or without its line break. The reader learns from
    /// every line, and hands out the event if it is wanted.
    pub fn take_line(&mut self, line: &str) -> (r: Option<RawEvent>)
        ensures
            final(self).wanted() == old(self).wanted(),
            final(self).known() == known_after(old(self).known(), trimmed_end(line@)),
            opt_event(r) == (match event_of(old(self).known(), trimmed_end(line@)) {
                Some(e) => if old(self).wanted().contains(e.name) {
                    Some(e)
                } else {
                    None
                },
                None => None,
            }),
    {
        let text = trim_end(line);
        match self.translator.translate(text) {
            Some(event) => {
                if self.subscriptions.contains(event.name.as_str()) {
                    Some(event)
                } else {
                    None
                }
            },
            None => None,
        }
    }
}

/// `fullscreen` is a truth value in older versions and a mode in newer ones, 0
/// for none.
pub open spec fn fullscreen_value(v: JsonView) -> bool {
    match json_as_bool(v) {
        Some(b) => b,
        None => match json_as_i64(v) {
            Some(mode) => mode != 0,
            None => false,
        },
    }
}

/// Reads the `fullscreen` member of a window, which is a flag or a number.
pub fn fullscreen_as_bool(value: &JsonValue) -> (r: bool)
    ensures
        r == fullscreen_value(value@),
{
    match value.as_bool() {
        Some(b) => b,
        None => match value.as_i64() {
            Some(mode) => mode != 0,
            None => false,
        },
    }
}

/// The floating state of a window, `false` where it has none.
pub open spec fn floating_value(v: JsonView) -> bool {
    match json_as_bool(v) {
        Some(b) => b,
        None => false,
    }
}

fn floating_as_bool(value: &JsonValue) -> (r: bool)
    ensures
        r == floating_value(value@),
{
    match value.as_bool() {
        Some(b) => b,
        None => false,
    }
}

/// The query that answers a key.
pub open spec fn query_for(key: Seq<char>) -> Option<Seq<char>> {
    if key == "workspace"@ || key == "workspace_name"@ {
        Some("activeworkspace"@)
    } else if key == "workspaces"@ {
        Some("workspaces"@)
    } else if key == "title"@ || key == "appid"@ || key == "fullscreen"@ || key == "floating"@ {
        Some("activewindow"@)
    } else if key == "output"@ || key == "outputs"@ {
        Some("monitors"@)
    } else if key == "client_count"@ {
        Some("clients"@)
    } else {
        None
    }
}

/// A workspace, as it is listed.
pub open spec fn listed_workspace(ws: JsonView) -> JsonView {
    JsonView::Object(
        two_fields("id"@, json_member(ws, "id"@), "name"@, json_member(ws, "name"@)),
    )
}

/// The names of those monitors that have one.
pub open spec fn monitor_names(monitors: Seq<JsonView>) -> Seq<JsonView>
    decreases monitors.len(),
{
    if monitors.len() == 0 {
        Seq::empty()
    } else {
        let init = monitor_names(monitors.drop_last());
        match json_as_str(json_member(monitors.last(), "name"@)) {
            Some(name) => init.push(text_json(name)),
            None => init,
        }
    }
}

/// The monitor counts as focused.
pub open spec fn is_focused(monitor: JsonView) -> bool {
    json_as_bool(json_member(monitor, "focused"@)) == Some(true)
}

/// The first focused monitor.
pub open spec fn focused_monitor_of(monitors: Seq<JsonView>) -> Option<JsonView>
    decreases monitors.len(),
{
    if monitors.len() == 0 {
        None
    } else if is_focused(monitors[0]) {
        Some(monitors[0])
    } else {
        focused_monitor_of(monitors.skip(1))
    }
}

/// The string under a name, empty where there is none.
pub open spec fn text_member(v: JsonView, name: Seq<char>) -> JsonView {
    match json_as_str(json_member(v, name)) {
        Some(s) => text_json(s),
        None => text_json(""@),
    }
}

/// What a key reads, given the answer to its query.
pub open spec fn value_for(key: Seq<char>, doc: JsonView) -> Result<JsonView, Seq<char>> {
    if key == "workspace"@ {
        Ok(json_member(doc, "id"@))
    } else if key == "workspace_name"@ {
        Ok(json_member(doc, "name"@))
    } else if key == "workspaces"@ {
        Ok(
            JsonView::Array(
                Seq::new(
                    json_elements(doc).len(),
                    |i: int| listed_workspace(json_elements(doc)[i]),
                ),
            ),
        )
    } else if key == "title"@ {
        Ok(text_member(doc, "title"@))
    } else if key == "appid"@ {
        Ok(text_member(doc, "class"@))
    } else if key == "fullscreen"@ {
        Ok(JsonView::Bool(fullscreen_value(json_member(doc, "fullscreen"@))))
    } else if key == "floating"@ {
        Ok(JsonView::Bool(floating_value(json_member(doc, "floating"@))))
    } else if key == "output"@ {
        match focused_monitor_of(json_elements(doc)) {
            Some(monitor) => Ok(json_member(monitor, "name"@)),
            None => Err("No focused monitor reported by Hyprland"@),
        }
    } else if key == "outputs"@ {
        Ok(JsonView::Array(monitor_names(json_elements(doc))))
    } else if key == "client_count"@ {
        Ok(int_json(json_elements(doc).len() as int))
    } else {
        Err("Unknown key: "@ + key)
    }
}

/// What is sent for a query.
pub fn query_request(cmd: &str) -> (r: String)
    ensures
        r@ == "j/"@ + cmd@,
{
    joined("j/", cmd)
}

/// What the answer to a query says.
pub open spec fn query_answer(cmd: Seq<char>, response: Seq<char>) -> Result<JsonView, Seq<char>> {
    match json_parse(response) {
        Some(doc) => Ok(doc),
        None => Err("Invalid JSON from Hyprland for '"@ + cmd + "': "@ + response),
    }
}

/// Reads the answer to a query.
pub fn query_reply(cmd: &str, response: &str) -> (r: Result<JsonValue, String>)
    ensures
        value_result(r) == query_answer(cmd@, response@),
{
    match parse_json(response) {
        Some(doc) => Ok(doc),
        None => {
            let head = joined3("Invalid JSON from Hyprland for '", cmd, "': ");
            Err(joined(head.as_str(), response))
        },
    }
}

/// What is sent for a dispatch.
pub fn dispatch_request(args: &str) -> (r: String)
    ensures
        r@ == "dispatch "@ + args@,
{
    joined("dispatch ", args)
}

/// Hyprland answers "ok" to a dispatch that it carried out.
pub open spec fn dispatch_answer(args: Seq<char>, response: Seq<char>) -> Result<(), Seq<char>> {
    if trimmed(response) == "ok"@ {
        Ok(())
    } else {
        Err("Hyprland dispatch '"@ + args + "' failed: "@ + response)
    }
}

/// Reads the answer to a dispatch.
pub fn dispatch_reply(args: &str, response: &str) -> (r: Result<(), String>)
    ensures
        unit_result(r) == dispatch_answer(args@, response@),
{
    if str_eq(trim(response), "ok") {
        Ok(())
    } else {
        let head = joined3("Hyprland dispatch '", args, "' failed: ");
        Err(joined(head.as_str(), response))
    }
}

/// The error of a command that took too long.
pub fn command_timed_out() -> (r: String)
    ensures
        r@ == "Hyprland did not respond within "@ + crate::text::decimal(CMD_TIMEOUT_SECS as nat)
            + "s"@,
{
    joined3(
        "Hyprland did not respond within ",
        crate::text::u64_to_text(CMD_TIMEOUT_SECS).as_str(),
        "s",
    )
}

/// Reads the answer to the version query with which a connection starts: the
/// version that runs.
pub fn init_reply(response: &str) -> (r: Result<String, String>)
    ensures
        (match r {
            Ok(tag) => Ok(tag@),
            Err(e) => Err(e@),
        }) == (match json_parse(response@) {
            Some(doc) => Ok(
                match json_as_str(json_member(doc, "tag"@)) {
                    Some(tag) => tag,
                    None => "(unknown version)"@,
                },
            ),
            None => Err("Failed to query Hyprland version - is Hyprland running?"@),
        }),
{
    match parse_json(response) {
        Some(doc) => {
            let member = doc.member("tag");
            match member.as_str() {
                Some(tag) => Ok(tag.to_owned()),
                None => Ok("(unknown version)".to_owned()),
            }
        },
        None => Err("Failed to query Hyprland version - is Hyprland running?".to_owned()),
    }
}

/// The query that reading a key takes.
pub fn get_query(key: &str) -> (r: Result<&'static str, String>)
    ensures
        (match r {
            Ok(q) => Ok(q@),
            Err(e) => Err(e@),
        }) == (match query_for(key@) {
            Some(q) => Ok(q),
            None => Err("Unknown key: "@ + key@),
        }),
{
    if str_eq(key, "workspace") || str_eq(key, "workspace_name") {
        Ok("activeworkspace")
    } else if str_eq(key, "workspaces") {
        Ok("workspaces")
    } else if str_eq(key, "title") || str_eq(key, "appid") || str_eq(key, "fullscreen") || str_eq(
        key,
        "floating",
    ) {
        Ok("activewindow")
    } else if str_eq(key, "output") || str_eq(key, "outputs") {
        Ok("monitors")
    } else if str_eq(key, "client_count") {
        Ok("clients")
    } else {
        Err(joined("Unknown key: ", key))
    }
}

fn elements(doc: &JsonValue) -> (r: Option<&Vec<JsonValue>>)
    ensures
        match r {
            Some(items) => json_elements(doc@) == values_view(items@),
            None => json_elements(doc@) == Seq::<JsonView>::empty(),
        },
{
    doc.as_array()
}

fn list_workspaces(doc: &JsonValue) -> (r: JsonValue)
    ensures
        r@ == value_for("workspaces"@, doc@)->Ok_0,
{
    broadcast use value_view;

    proof {
        reveal_strlit("workspaces");
        reveal_strlit("workspace");
        reveal_strlit("workspace_name");
    }
    assert("workspaces"@.len() == 10 && "workspace"@.len() == 9 && "workspace_name"@.len() == 14);
    let ghost wanted = value_for("workspaces"@, doc@)->Ok_0->Array_0;
    let mut out: Vec<JsonValue> = Vec::new();
    match elements(doc) {
        Some(items) => {
            for i in 0..items.len()
                invariant
                    json_elements(doc@) == values_view(items@),
                    values_view(out@) == Seq::new(
                        i as nat,
                        |j: int| listed_workspace(json_elements(doc@)[j]),
                    ),
            {
                broadcast use value_view;

                let ghost before = out@;
                let ws = &items[i];
                let entry = JsonValue::Object(
                    state_of_two("id", ws.member("id"), "name", ws.member("name")),
                );
                assert(entry@ == listed_workspace(json_elements(doc@)[i as int]));
                out.push(entry);
                assert(values_view(out@) =~= values_view(before).push(entry@));
                assert(values_view(out@) =~= Seq::new(
                    (i + 1) as nat,
                    |j: int| listed_workspace(json_elements(doc@)[j]),
                ));
            }
        },
        None => {},
    }
    assert(values_view(out@) =~= wanted);
    JsonValue::Array(out)
}

fn list_monitors(doc: &JsonValue) -> (r: JsonValue)
    ensures
        r@ == JsonView::Array(monitor_names(json_elements(doc@))),
{
    broadcast use value_view;

    let ghost all = json_elements(doc@);
    let mut out: Vec<JsonValue> = Vec::new();
    assert(values_view(out@) =~= monitor_names(all.take(0)));
    match elements(doc) {
        Some(items) => {
            for i in 0..items.len()
                invariant
                    all == values_view(items@),
                    values_view(out@) == monitor_names(all.take(i as int)),
            {
                let ghost before = out@;
                assert(all.take(i + 1).drop_last() =~= all.take(i as int));
                assert(all.take(i + 1).last() == items@[i as int]@);
                let member = items[i].member("name");
                match member.as_str() {
                    Some(name) => {
                        out.push(JsonValue::text(name));
                        assert(values_view(out@) =~= values_view(before).push(text_json(name@)));
                    },
                    None => {},
                }
            }
        },
        None => {},
    }
    assert(all.take(all.len() as int) =~= all);
    JsonValue::Array(out)
}

fn focused_monitor(doc: &JsonValue) -> (r: Option<&JsonValue>)
    ensures
        (match r {
            Some(m) => Some(m@),
            None => None,
        }) == focused_monitor_of(json_elements(doc@)),
{
    let ghost all = json_elements(doc@);
    match elements(doc) {
        Some(items) => {
            assert(all.skip(0) =~= all);
            for i in 0..items.len()
                invariant
                    all == json_elements(doc@),
                    all == values_view(items@),
                    focused_monitor_of(all.skip(i as int)) == focused_monitor_of(all),
            {
                assert(all.skip(i as int)[0] == items@[i as int]@);
                assert(all.skip(i as int).skip(1) =~= all.skip(i + 1));
                let member = items[i].member("focused");
                match member.as_bool() {
                    Some(true) => {
                        return Some(&items[i]);
                    },
                    _ => {},
                }
            }
            assert(all.skip(all.len() as int).len() == 0);
            None
        },
        None => None,
    }
}

fn text_or_empty(doc: &JsonValue, name: &str) -> (r: JsonValue)
    ensures
        r@ == text_member(doc@, name@),
{
    let member = doc.member(name);
    match member.as_str() {
        Some(s) => JsonValue::text(s),
        None => JsonValue::text(""),
    }
}

/// What a key reads, given the answer to its query.
pub fn get_value(key: &str, doc: &JsonValue) -> (r: Result<JsonValue, String>)
    ensures
        value_result(r) == value_for(key@, doc@),
{
    if str_eq(key, "workspace") {
        Ok(doc.member("id"))
    } else if str_eq(key, "workspace_name") {
        Ok(doc.member("name"))
    } else if str_eq(key, "workspaces") {
        Ok(list_workspaces(doc))
    } else if str_eq(key, "title") {
        Ok(text_or_empty(doc, "title"))
    } else if str_eq(key, "appid") {
        Ok(text_or_empty(doc, "class"))
    } else if str_eq(key, "fullscreen") {
        Ok(JsonValue::boolean(fullscreen_as_bool(&doc.member("fullscreen"))))
    } else if str_eq(key, "floating") {
        Ok(JsonValue::boolean(floating_as_bool(&doc.member("floating"))))
    } else if str_eq(key, "output") {
        match focused_monitor(doc) {
            Some(monitor) => Ok(monitor.member("name")),
            None => Err("No focused monitor reported by Hyprland".to_owned()),
        }
    } else if str_eq(key, "outputs") {
        Ok(list_monitors(doc))
    } else if str_eq(key, "client_count") {
        let count: u64 = match elements(doc) {
            Some(items) => items.len() as u64,
            None => 0,
        };
        Ok(JsonValue::unsigned(count))
    } else {
        Err(joined("Unknown key: ", key))
    }
}

/// What a key reads, given the text with which its query was answered.
pub fn get_reply(key: &str, response: &str) -> (r: Result<JsonValue, String>)
    ensures
        value_result(r) == (match query_for(key@) {
            Some(cmd) => match query_answer(cmd, response@) {
                Ok(doc) => value_for(key@, doc),
                Err(e) => Err(e),
            },
            None => Err("Unknown key: "@ + key@),
        }),
{
    match get_query(key) {
        Ok(cmd) => match query_reply(cmd, response) {
            Ok(doc) => get_value(key, &doc),
            Err(e) => Err(e),
        },
        Err(e) => Err(e),
    }
}

/// A window state that Hyprland can only toggle.
#[derive(Debug, Clone, Copy, PartialEq, Eq, Structural)]
pub enum Toggle {
    Fullscreen,
    Floating,
}

/// The first step of setting a key.
#[derive(Debug)]
pub enum SetStep {
    /// Dispatch these arguments.
    Dispatch(String),
    /// Query the active window, and toggle the state if it differs from the one
    /// that is wanted.
    ToggleTo(Toggle, bool),
}

pub enum SetStepView {
    Dispatch(Seq<char>),
    ToggleTo(Toggle, bool),
}

impl View for SetStep {
    type V = SetStepView;

    open spec fn view(&self) -> SetStepView {
        match self {
            SetStep::Dispatch(args) => SetStepView::Dispatch(args@),
            SetStep::ToggleTo(toggle, want) => SetStepView::ToggleTo(*toggle, *want),
        }
    }
}

/// How a key is set to a value, or why it cannot be.
pub open spec fn set_step_for(key: Seq<char>, value: JsonView) -> Result<SetStepView, Seq<char>> {
    if key == "workspace"@ {
        match (json_as_i64(value), json_as_str(value)) {
            (Some(id), _) => Ok(SetStepView::Dispatch("workspace "@ + int_text(id as int))),
            (None, Some(name)) => Ok(SetStepView::Dispatch("workspace "@ + name)),
            (None, None) => Err("workspace must be a number or string"@),
        }
    } else if key == "fullscreen"@ {
        match json_as_bool(value) {
            Some(want) => Ok(SetStepView::ToggleTo(Toggle::Fullscreen, want)),
            None => Err("fullscreen must be a boolean"@),
        }
    } else if key == "floating"@ {
        match json_as_bool(value) {
            Some(want) => Ok(SetStepView::ToggleTo(Toggle::Floating, want)),
            None => Err("floating must be a boolean"@),
        }
    } else {
        Err("Cannot set '"@ + key + "' (read-only or unknown)"@)
    }
}

/// The first step of setting a key to a value.
pub fn set_step(key: &str, value: &JsonValue) -> (r: Result<SetStep, String>)
    ensures
        (match r {
            Ok(step) => Ok(step@),
            Err(e) => Err(e@),
        }) == set_step_for(key@, value@),
{
    if str_eq(key, "workspace") {
        match (value.as_i64(), value.as_str()) {
            (Some(id), _) => Ok(
                SetStep::Dispatch(joined("workspace ", i64_to_text(id).as_str())),
            ),
            (None, Some(name)) => Ok(SetStep::Dispatch(joined("workspace ", name))),
            (None, None) => Err("workspace must be a number or string".to_owned()),
        }
    } else if str_eq(key, "fullscreen") {
        match value.as_bool() {
            Some(want) => Ok(SetStep::ToggleTo(Toggle::Fullscreen, want)),
            None => Err("fullscreen must be a boolean".to_owned()),
        }
    } else if str_eq(key, "floating") {
        match value.as_bool() {
            Some(want) => Ok(SetStep::ToggleTo(Toggle::Floating, want)),
            None => Err("floating must be a boolean".to_owned()),
        }
    } else {
        Err(joined3("Cannot set '", key, "' (read-only or unknown)"))
    }
}

/// The state that a toggle has in the active window.
pub open spec fn toggle_state(toggle: Toggle, window: JsonView) -> bool {
    match toggle {
        Toggle::Fullscreen => fullscreen_value(json_member(window, "fullscreen"@)),
        Toggle::Floating => floating_value(json_member(window, "floating"@)),
    }
}

/// What to dispatch in order to toggle.
pub open spec fn toggle_args(toggle: Toggle) -> Seq<char> {
    match toggle {
        Toggle::Fullscreen => "fullscreen 0"@,
        Toggle::Floating => "togglefloating"@,
    }
}

/// What to dispatch so that a state becomes the wanted one: nothing if it
/// already is.
pub open spec fn toggle_for(toggle: Toggle, want: bool, window: JsonView) -> Option<Seq<char>> {
    if toggle_state(toggle, window) != want {
        Some(toggle_args(toggle))
    } else {
        None
    }
}

/// The second step of setting a state, once the active window is known.
pub fn toggle_step(toggle: Toggle, want: bool, window: &JsonValue) -> (r: Option<&'static str>)
    ensures
        opt_text(r) == toggle_for(toggle, want, window@),
{
    match toggle {
        Toggle::Fullscreen => if fullscreen_as_bool(&window.member("fullscreen")) != want {
            Some("fullscreen 0")
        } else {
            None
        },
        Toggle::Floating => if floating_as_bool(&window.member("floating")) != want {
            Some("togglefloating")
        } else {
            None
        },
    }
}

/// The second step of setting a state, given the text with which the query for
/// the active window was answered.
pub fn toggle_reply(toggle: Toggle, want: bool, response: &str) -> (r: Result<
    Option<&'static str>,
    String,
>)
    ensures
        (match r {
            Ok(args) => Ok(opt_text(args)),
            Err(e) => Err(e@),
        }) == (match query_answer("activewindow"@, response@) {
            Ok(window) => Ok(toggle_for(toggle, want, window)),
            Err(e) => Err(e),
        }),
{
    match query_reply("activewindow", response) {
        Ok(window) => Ok(toggle_step(toggle, want, &window)),
        Err(e) => Err(e),
    }
}

/// The declaration of one capability.
pub open spec fn declared(name: Seq<char>, access: AccessMode, description: Seq<char>) -> CapabilityView {
    CapabilityView { name, access, description: Some(description) }
}

/// What the Hyprland adapter declares.
pub open spec fn hyprland_manifest() -> Seq<CapabilityView> {
    seq![
        declared("workspace"@, AccessMode::ReadWrite, "Active workspace ID"@),
        declared("workspace_name"@, AccessMode::ReadOnly, "Active workspace name"@),
        declared("workspaces"@, AccessMode::ReadOnly, "Existing workspaces"@),
        declared("title"@, AccessMode::ReadOnly, "Focused window title"@),
        declared("appid"@, AccessMode::ReadOnly, "Focused window class"@),
        declared("fullscreen"@, AccessMode::ReadWrite, "Focused window fullscreen state"@),
        declared("floating"@, AccessMode::ReadWrite, "Focused window floating state"@),
        declared("output"@, AccessMode::ReadOnly, "Focused monitor name"@),
        declared("outputs"@, AccessMode::ReadOnly, "Connected monitor names"@),
        declared("client_count"@, AccessMode::ReadOnly, "Number of open windows"@),
    ]
}

/// What the Hyprland adapter supports.
pub fn manifest() -> (m: CapabilityManifest)
    ensures
        m@ == hyprland_manifest(),
{
    let m = CapabilityManifest::new().add(
        Capability::read_write("workspace").with_description("Active workspace ID"),
    ).add(Capability::read_only("workspace_name").with_description("Active workspace name")).add(
        Capability::read_only("workspaces").with_description("Existing workspaces"),
    ).add(Capability::read_only("title").with_description("Focused window title")).add(
        Capability::read_only("appid").with_description("Focused window class"),
    ).add(
        Capability::read_write("fullscreen").with_description("Focused window fullscreen state"),
    ).add(
        Capability::read_write("floating").with_description("Focused window floating state"),
    ).add(Capability::read_only("output").with_description("Focused monitor name")).add(
        Capability::read_only("outputs").with_description("Connected monitor names"),
    ).add(Capability::read_only("client_count").with_description("Number of open windows"));
    assert(m@ =~= hyprland_manifest());
    m
}

/// Where the sockets of a running instance may be: below the runtime directory,
/// and at the place that older versions used.
pub open spec fn socket_dirs(signature: Seq<char>, runtime_dir: Option<Seq<char>>) -> Seq<Seq<char>> {
    let legacy = joined_path("/tmp/hypr"@, signature);
    match runtime_dir {
        Some(dir) => seq![joined_path(joined_path(dir, "hypr"@), signature), legacy],
        None => seq![legacy],
    }
}

/// The directories in which to look for the sockets, the first to be preferred.
pub fn socket_dir_candidates(signature: Option<&str>, runtime_dir: Option<&str>) -> (r: Result<
    Vec<String>,
    String,
>)
    ensures
        (match r {
            Ok(dirs) => Ok(texts(dirs@)),
            Err(e) => Err(e@),
        }) == (match signature {
            Some(signature) => Ok(socket_dirs(signature@, opt_text(runtime_dir))),
            None => Err(
                "HYPRLAND_INSTANCE_SIGNATURE is not set - is Hyprland running? (set [adapter] socket_dir to override)"@,
            ),
        }),
{
    let signature = match signature {
        Some(s) => s,
        None => {
            return Err(
                "HYPRLAND_INSTANCE_SIGNATURE is not set - is Hyprland running? (set [adapter] socket_dir to override)".to_owned(),
            );
        },
    };
    let mut dirs: Vec<String> = Vec::new();
    match runtime_dir {
        Some(dir) => {
            let hypr = join_path(dir, "hypr");
            dirs.push(join_path(hypr.as_str(), signature));
        },
        None => {},
    }
    dirs.push(join_path("/tmp/hypr", signature));
    assert(texts(dirs@) =~= socket_dirs(signature@, opt_text(runtime_dir)));
    Ok(dirs)
}

/// Chooses among the candidates, given for each whether its command socket
/// exists.
pub fn choose_socket_dir(signature: &str, dirs: &Vec<String>, found: &Vec<bool>) -> (r: Result<
    String,
    String,
>)
    ensures
        (match r {
            Ok(dir) => Ok(dir@),
            Err(e) => Err(e@),
        }) == (match first_found(texts(dirs@), found@) {
            Some(dir) => Ok(dir),
            None => Err(
                "Hyprland socket not found for instance '"@ + signature@
                    + "' (checked $XDG_RUNTIME_DIR/hypr and /tmp/hypr)"@,
            ),
        }),
{
    match choose_first(dirs, found) {
        Some(dir) => Ok(dir),
        None => Err(
            joined3(
                "Hyprland socket not found for instance '",
                signature,
                "' (checked $XDG_RUNTIME_DIR/hypr and /tmp/hypr)",
            ),
        ),
    }
}

/// The socket that takes commands.
pub fn cmd_socket(socket_dir: &str) -> (r: String)
    ensures
        r@ == joined_path(socket_dir@, ".socket.sock"@),
{
    join_path(socket_dir, ".socket.sock")
}

/// The socket that emits events.
pub fn event_socket(socket_dir: &str) -> (r: String)
    ensures
        r@ == joined_path(socket_dir@, ".socket2.sock"@),
{
    join_path(socket_dir, ".socket2.sock")
}

/// The state that is remembered between two events of a name.
pub open spec fn remembered(t: TranslatorView, name: Seq<char>) -> Option<
    Map<Seq<char>, JsonView>,
> {
    if name == "workspace_change"@ {
        Some(workspace_fields(t.workspace_id, t.workspace_name))
    } else if name == "focus_change"@ {
        Some(two_fields("title"@, text_json(t.title), "appid"@, text_json(t.appid)))
    } else if name == "window_state_change"@ {
        Some(one_field("fullscreen"@, JsonView::Bool(t.fullscreen)))
    } else if name == "keymode_change"@ {
        Some(one_field("keymode"@, text_json(t.keymode)))
    } else if name == "keyboard_layout_change"@ {
        Some(one_field("kb_layout"@, text_json(t.kb_layout)))
    } else {
        None
    }
}

/// What is known after some lines.
pub open spec fn known_after_all(t: TranslatorView, lines: Seq<Seq<char>>) -> TranslatorView
    decreases lines.len(),
{
    if lines.len() == 0 {
        t
    } else {
        known_after(known_after_all(t, lines.drop_last()), lines.last())
    }
}

/// No line among these brings an event of that name.
pub open spec fn none_brings(t: TranslatorView, lines: Seq<Seq<char>>, name: Seq<char>) -> bool {
    forall|i: int|
        0 <= i < lines.len() ==> (event_of(
            known_after_all(t, #[trigger] lines.take(i)),
            lines[i],
        ) matches Some(e) ==> e.name != name)
}

proof fn reveal_event_names()
    ensures
        "workspace_change"@.len() == 16,
        "focus_change"@.len() == 12,
        "output_focus"@.len() == 12,
        "focus_change"@[0] == 'f',
        "output_focus"@[0] == 'o',
        "window_state_change"@.len() == 19,
        "keymode_change"@.len() == 14,
        "keyboard_layout_change"@.len() == 22,
        "window_open"@.len() == 11,
        "window_close"@.len() == 12,
        "window_close"@[0] == 'w',
        "workspace_create"@.len() == 16,
        "workspace_change"@[11] == 'h',
        "workspace_create"@[11] == 'r',
        "workspace_destroy"@.len() == 17,
        "output_add"@.len() == 10,
        "output_remove"@.len() == 13,
{
    reveal_strlit("workspace_change");
    reveal_strlit("focus_change");
    reveal_strlit("output_focus");
    reveal_strlit("window_state_change");
    reveal_strlit("keymode_change");
    reveal_strlit("keyboard_layout_change");
    reveal_strlit("window_open");
    reveal_strlit("window_close");
    reveal_strlit("workspace_create");
    reveal_strlit("workspace_destroy");
    reveal_strlit("output_add");
    reveal_strlit("output_remove");
}

/// An event of a remembered name goes from what was remembered before its line
/// to what is remembered after it. A line that brings no such event leaves what
/// is remembered as it was.
pub proof fn line_moves_remembered(t: TranslatorView, line: Seq<char>, name: Seq<char>)
    requires
        remembered(t, name) is Some,
    ensures
        match event_of(t, line) {
            Some(e) => if e.name == name {
                e.prev == remembered(t, name) && e.curr == remembered(known_after(t, line), name)
            } else {
                remembered(known_after(t, line), name) == remembered(t, name)
            },
            None => remembered(known_after(t, line), name) == remembered(t, name),
        },
{
    reveal_event_names();
}

/// An event of a remembered name tells of a change: its two states differ.
pub proof fn events_tell_of_changes(t: TranslatorView, line: Seq<char>, name: Seq<char>)
    requires
        remembered(t, name) is Some,
        event_of(t, line) matches Some(e) && e.name == name,
    ensures
        event_of(t, line)->0.prev != event_of(t, line)->0.curr,
{
    reveal_event_names();
    reveal_strlit("id");
    reveal_strlit("name");
    reveal_strlit("title");
    reveal_strlit("appid");
    let e = event_of(t, line)->0;
    let (prev, curr) = (e.prev->0, e.curr->0);
    line_moves_remembered(t, line, name);
    assert("id"@.len() == 2 && "name"@.len() == 4);
    assert("title"@[0] == 't' && "appid"@[0] == 'a');
    if prev == curr {
        let after = known_after(t, line);
        if name == "workspace_change"@ {
            assert(prev["id"@] == int_json(t.workspace_id) && curr["id"@] == int_json(
                after.workspace_id,
            ));
            assert(prev["name"@] == text_json(t.workspace_name));
            assert(curr["name"@] == text_json(after.workspace_name));
        } else if name == "focus_change"@ {
            assert(prev["title"@] == text_json(t.title) && curr["title"@] == text_json(
                after.title,
            ));
            assert(prev["appid"@] == text_json(t.appid) && curr["appid"@] == text_json(
                after.appid,
            ));
        } else if name == "window_state_change"@ {
            assert(prev["fullscreen"@] == JsonView::Bool(t.fullscreen));
            assert(curr["fullscreen"@] == JsonView::Bool(after.fullscreen));
        } else if name == "keymode_change"@ {
            assert(prev["keymode"@] == text_json(t.keymode));
            assert(curr["keymode"@] == text_json(after.keymode));
        } else {
            assert(prev["kb_layout"@] == text_json(t.kb_layout));
            assert(curr["kb_layout"@] == text_json(after.kb_layout));
        }
    }
}

/// A line that told of a transition tells of nothing when it comes again at once.
pub proof fn repeated_transitions_are_silent(t: TranslatorView, line: Seq<char>)
    requires
        event_of(t, line) matches Some(e) && e.prev is Some && e.curr is Some,
    ensures
        event_of(known_after(t, line), line) is None,
        known_after(known_after(t, line), line) == known_after(t, line),
{
}

/// A transition is reported exactly when something that is known changes, and
/// whatever else is reported changes nothing that is known.
pub proof fn reports_follow_changes(t: TranslatorView, line: Seq<char>)
    ensures
        (event_of(t, line) matches Some(e) && e.prev is Some && e.curr is Some) <==> known_after(
            t,
            line,
        ) != t,
{
}

/// Between two events of one remembered name nothing is lost: the second starts
/// from the state in which the first ended, whatever other lines came between.
pub proof fn prev_is_last_curr(
    t: TranslatorView,
    first: Seq<char>,
    between: Seq<Seq<char>>,
    second: Seq<char>,
    name: Seq<char>,
)
    requires
        remembered(t, name) is Some,
        event_of(t, first) matches Some(e) && e.name == name,
        none_brings(known_after(t, first), between, name),
        event_of(known_after_all(known_after(t, first), between), second) matches Some(e) && e.name
            == name,
    ensures
        event_of(known_after_all(known_after(t, first), between), second)->0.prev == event_of(
            t,
            first,
        )->0.curr,
{
    let start = known_after(t, first);
    line_moves_remembered(t, first, name);
    remembered_is_kept(start, between, name);
    line_moves_remembered(known_after_all(start, between), second, name);
}

proof fn remembered_is_kept(t: TranslatorView, lines: Seq<Seq<char>>, name: Seq<char>)
    requires
        remembered(t, name) is Some,
        none_brings(t, lines, name),
    ensures
        remembered(known_after_all(t, lines), name) == remembered(t, name),
    decreases lines.len(),
{
    if lines.len() > 0 {
        let init = lines.drop_last();
        assert forall|i: int| 0 <= i < init.len() implies (event_of(
            known_after_all(t, #[trigger] init.take(i)),
            init[i],
        ) matches Some(e) ==> e.name != name) by {
            assert(init.take(i) =~= lines.take(i));
        }
        remembered_is_kept(t, init, name);
        assert(lines.take(lines.len() - 1) =~= init);
        line_moves_remembered(known_after_all(t, init), lines.last(), name);
    }
}

/// After a toggle that fires exactly when it should, the state is the wanted
/// one.
pub proof fn toggle_reaches_want(toggle: Toggle, want: bool, window: JsonView)
    ensures
        (toggle_for(toggle, want, window) is Some) != toggle_state(toggle, window) <==> want,
{
}

/// Exactly the declared keys can be read, and exactly those that are declared
/// writable can be set to some value.
pub proof fn manifest_tells_the_truth(key: Seq<char>)
    ensures
        query_for(key) is Some <==> (exists|i: int|
            0 <= i < hyprland_manifest().len() && (#[trigger] hyprland_manifest()[i]).name == key),
        (exists|v: JsonView| set_step_for(key, v) is Ok) <==> (exists|i: int|
            0 <= i < hyprland_manifest().len() && (#[trigger] hyprland_manifest()[i]).name == key
                && hyprland_manifest()[i].access == AccessMode::ReadWrite),
{
    let caps = hyprland_manifest();
    assert(caps.len() == 10);
    assert(caps[0].name == "workspace"@ && caps[1].name == "workspace_name"@ && caps[2].name
        == "workspaces"@ && caps[3].name == "title"@ && caps[4].name == "appid"@ && caps[5].name
        == "fullscreen"@ && caps[6].name == "floating"@ && caps[7].name == "output"@
        && caps[8].name == "outputs"@ && caps[9].name == "client_count"@);
    if key == "workspace"@ {
        assert(set_step_for(key, int_json(1)) is Ok);
    } else if key == "fullscreen"@ || key == "floating"@ {
        assert(set_step_for(key, JsonView::Bool(true)) is Ok);
    }
}

proof fn lemma_named_line(name: Seq<char>, data: Seq<char>)
    requires
        !name.contains('>'),
    ensures
        split_at_first(name + ">>"@ + data, ">>"@) == Some((name, data)),
        split_at_first(name, ">>"@) is None,
{
    reveal_strlit(">>");
    let sep = ">>"@;
    assert(sep.len() == 2 && sep[0] == '>');
    separators_are_found(name, sep, data);
}

proof fn lemma_comma(head: Seq<char>, tail: Seq<char>)
    requires
        !head.contains(','),
    ensures
        split_at_first(head + ","@ + tail, ","@) == Some((head, tail)),
        split_at_first(head, ","@) is None,
{
    reveal_strlit(",");
    assert(","@ =~= seq![',']);
    parts_are_read_back(head, ',', tail);
}

proof fn lemma_line_names()
    ensures
        "workspacev2"@ != "activewindow"@,
        "workspacev2"@ != "focusedmon"@,
        "workspacev2"@ != "fullscreen"@,
        "workspacev2"@ != "submap"@,
        "workspacev2"@ != "activelayout"@,
        "workspacev2"@ != "openwindow"@,
        "workspacev2"@ != "closewindow"@,
        "workspacev2"@ != "createworkspacev2"@,
        "workspacev2"@ != "destroyworkspacev2"@,
        "workspacev2"@ != "monitoradded"@,
        "workspacev2"@ != "monitorremoved"@,
        "activewindow"@ != "focusedmon"@,
        "activewindow"@ != "fullscreen"@,
        "activewindow"@ != "submap"@,
        "activewindow"@ != "activelayout"@,
        "activewindow"@ != "openwindow"@,
        "activewindow"@ != "closewindow"@,
        "activewindow"@ != "createworkspacev2"@,
        "activewindow"@ != "destroyworkspacev2"@,
        "activewindow"@ != "monitoradded"@,
        "activewindow"@ != "monitorremoved"@,
        "focusedmon"@ != "fullscreen"@,
        "focusedmon"@ != "submap"@,
        "focusedmon"@ != "activelayout"@,
        "focusedmon"@ != "openwindow"@,
        "focusedmon"@ != "closewindow"@,
        "focusedmon"@ != "createworkspacev2"@,
        "focusedmon"@ != "destroyworkspacev2"@,
        "focusedmon"@ != "monitoradded"@,
        "focusedmon"@ != "monitorremoved"@,
        "fullscreen"@ != "submap"@,
        "fullscreen"@ != "activelayout"@,
        "fullscreen"@ != "openwindow"@,
        "fullscreen"@ != "closewindow"@,
        "fullscreen"@ != "createworkspacev2"@,
        "fullscreen"@ != "destroyworkspacev2"@,
        "fullscreen"@ != "monitoradded"@,
        "fullscreen"@ != "monitorremoved"@,
        "submap"@ != "activelayout"@,
        "submap"@ != "openwindow"@,
        "submap"@ != "closewindow"@,
        "submap"@ != "createworkspacev2"@,
        "submap"@ != "destroyworkspacev2"@,
        "submap"@ != "monitoradded"@,
        "submap"@ != "monitorremoved"@,
        "activelayout"@ != "openwindow"@,
        "activelayout"@ != "closewindow"@,
        "activelayout"@ != "createworkspacev2"@,
        "activelayout"@ != "destroyworkspacev2"@,
        "activelayout"@ != "monitoradded"@,
        "activelayout"@ != "monitorremoved"@,
        "openwindow"@ != "closewindow"@,
        "openwindow"@ != "createworkspacev2"@,
        "openwindow"@ != "destroyworkspacev2"@,
        "openwindow"@ != "monitoradded"@,
        "openwindow"@ != "monitorremoved"@,
        "closewindow"@ != "createworkspacev2"@,
        "closewindow"@ != "destroyworkspacev2"@,
        "closewindow"@ != "monitoradded"@,
        "closewindow"@ != "monitorremoved"@,
        "createworkspacev2"@ != "destroyworkspacev2"@,
        "createworkspacev2"@ != "monitoradded"@,
        "createworkspacev2"@ != "monitorremoved"@,
        "destroyworkspacev2"@ != "monitoradded"@,
        "destroyworkspacev2"@ != "monitorremoved"@,
        "monitoradded"@ != "monitorremoved"@,
{
    reveal_strlit("workspacev2");
    reveal_strlit("activewindow");
    reveal_strlit("focusedmon");
    reveal_strlit("fullscreen");
    reveal_strlit("submap");
    reveal_strlit("activelayout");
    reveal_strlit("openwindow");
    reveal_strlit("closewindow");
    reveal_strlit("createworkspacev2");
    reveal_strlit("destroyworkspacev2");
    reveal_strlit("monitoradded");
    reveal_strlit("monitorremoved");
    assert("workspacev2"@.len() == 11 && "workspacev2"@[0] == 'w');
    assert("activewindow"@.len() == 12 && "activewindow"@[0] == 'a' && "activewindow"@[6] == 'w');
    assert("focusedmon"@.len() == 10 && "focusedmon"@[0] == 'f' && "focusedmon"@[1] == 'o');
    assert("fullscreen"@.len() == 10 && "fullscreen"@[0] == 'f' && "fullscreen"@[1] == 'u');
    assert("submap"@.len() == 6);
    assert("activelayout"@.len() == 12 && "activelayout"@[0] == 'a' && "activelayout"@[6] == 'l');
    assert("openwindow"@.len() == 10 && "openwindow"@[0] == 'o');
    assert("closewindow"@.len() == 11 && "closewindow"@[0] == 'c');
    assert("createworkspacev2"@.len() == 17);
    assert("destroyworkspacev2"@.len() == 18);
    assert("monitoradded"@.len() == 12 && "monitoradded"@[0] == 'm');
    assert("monitorremoved"@.len() == 14);
}

proof fn lemma_workspacev2(data: Seq<char>)
    ensures
        split_at_first("workspacev2>>"@ + data, ">>"@) == Some(("workspacev2"@, data)),
{
    reveal_strlit("workspacev2");
    reveal_strlit(">>");
    reveal_strlit("workspacev2>>");
    let name = "workspacev2"@;
    assert(name.len() == 11 && name[0] == 'w' && name[1] == 'o' && name[2] == 'r' && name[3] == 'k'
        && name[4] == 's' && name[5] == 'p' && name[6] == 'a' && name[7] == 'c' && name[8] == 'e'
        && name[9] == 'v' && name[10] == '2');
    assert("workspacev2>>"@ =~= name + ">>"@);
    lemma_named_line(name, data);
}

proof fn lemma_activewindow(data: Seq<char>)
    ensures
        split_at_first("activewindow>>"@ + data, ">>"@) == Some(("activewindow"@, data)),
{
    reveal_strlit("activewindow");
    reveal_strlit(">>");
    reveal_strlit("activewindow>>");
    let name = "activewindow"@;
    assert(name.len() == 12 && name[0] == 'a' && name[1] == 'c' && name[2] == 't' && name[3] == 'i'
        && name[4] == 'v' && name[5] == 'e' && name[6] == 'w' && name[7] == 'i' && name[8] == 'n'
        && name[9] == 'd' && name[10] == 'o' && name[11] == 'w');
    assert("activewindow>>"@ =~= name + ">>"@);
    lemma_named_line(name, data);
}

proof fn lemma_focusedmon(data: Seq<char>)
    ensures
        split_at_first("focusedmon>>"@ + data, ">>"@) == Some(("focusedmon"@, data)),
{
    reveal_strlit("focusedmon");
    reveal_strlit(">>");
    reveal_strlit("focusedmon>>");
    let name = "focusedmon"@;
    assert(name.len() == 10 && name[0] == 'f' && name[1] == 'o' && name[2] == 'c' && name[3] == 'u'
        && name[4] == 's' && name[5] == 'e' && name[6] == 'd' && name[7] == 'm' && name[8] == 'o'
        && name[9] == 'n');
    assert("focusedmon>>"@ =~= name + ">>"@);
    lemma_named_line(name, data);
}

proof fn lemma_fullscreen(data: Seq<char>)
    ensures
        split_at_first("fullscreen>>"@ + data, ">>"@) == Some(("fullscreen"@, data)),
{
    reveal_strlit("fullscreen");
    reveal_strlit(">>");
    reveal_strlit("fullscreen>>");
    let name = "fullscreen"@;
    assert(name.len() == 10 && name[0] == 'f' && name[1] == 'u' && name[2] == 'l' && name[3] == 'l'
        && name[4] == 's' && name[5] == 'c' && name[6] == 'r' && name[7] == 'e' && name[8] == 'e'
        && name[9] == 'n');
    assert("fullscreen>>"@ =~= name + ">>"@);
    lemma_named_line(name, data);
}

proof fn lemma_submap(data: Seq<char>)
    ensures
        split_at_first("submap>>"@ + data, ">>"@) == Some(("submap"@, data)),
{
    reveal_strlit("submap");
    reveal_strlit(">>");
    reveal_strlit("submap>>");
    let name = "submap"@;
    assert(name.len() == 6 && name[0] == 's' && name[1] == 'u' && name[2] == 'b' && name[3] == 'm'
        && name[4] == 'a' && name[5] == 'p');
    assert("submap>>"@ =~= name + ">>"@);
    lemma_named_line(name, data);
}

proof fn lemma_activelayout(data: Seq<char>)
    ensures
        split_at_first("activelayout>>"@ + data, ">>"@) == Some(("activelayout"@, data)),
{
    reveal_strlit("activelayout");
    reveal_strlit(">>");
    reveal_strlit("activelayout>>");
    let name = "activelayout"@;
    assert(name.len() == 12 && name[0] == 'a' && name[1] == 'c' && name[2] == 't' && name[3] == 'i'
        && name[4] == 'v' && name[5] == 'e' && name[6] == 'l' && name[7] == 'a' && name[8] == 'y'
        && name[9] == 'o' && name[10] == 'u' && name[11] == 't');
    assert("activelayout>>"@ =~= name + ">>"@);
    lemma_named_line(name, data);
}

proof fn lemma_openwindow(data: Seq<char>)
    ensures
        split_at_first("openwindow>>"@ + data, ">>"@) == Some(("openwindow"@, data)),
{
    reveal_strlit("openwindow");
    reveal_strlit(">>");
    reveal_strlit("openwindow>>");
    let name = "openwindow"@;
    assert(name.len() == 10 && name[0] == 'o' && name[1] == 'p' && name[2] == 'e' && name[3] == 'n'
        && name[4] == 'w' && name[5] == 'i' && name[6] == 'n' && name[7] == 'd' && name[8] == 'o'
        && name[9] == 'w');
    assert("openwindow>>"@ =~= name + ">>"@);
    lemma_named_line(name, data);
}

proof fn lemma_closewindow(data: Seq<char>)
    ensures
        split_at_first("closewindow>>"@ + data, ">>"@) == Some(("closewindow"@, data)),
{
    reveal_strlit("closewindow");
    reveal_strlit(">>");
    reveal_strlit("closewindow>>");
    let name = "closewindow"@;
    assert(name.len() == 11 && name[0] == 'c' && name[1] == 'l' && name[2] == 'o' && name[3] == 's'
        && name[4] == 'e' && name[5] == 'w' && name[6] == 'i' && name[7] == 'n' && name[8] == 'd'
        && name[9] == 'o' && name[10] == 'w');
    assert("closewindow>>"@ =~= name + ">>"@);
    lemma_named_line(name, data);
}

proof fn lemma_createworkspacev2(data: Seq<char>)
    ensures
        split_at_first("createworkspacev2>>"@ + data, ">>"@) == Some(("createworkspacev2"@, data)),
{
    reveal_strlit("createworkspacev2");
    reveal_strlit(">>");
    reveal_strlit("createworkspacev2>>");
    let name = "createworkspacev2"@;
    assert(name.len() == 17 && name[0] == 'c' && name[1] == 'r' && name[2] == 'e' && name[3] == 'a'
        && name[4] == 't' && name[5] == 'e' && name[6] == 'w' && name[7] == 'o' && name[8] == 'r'
        && name[9] == 'k' && name[10] == 's' && name[11] == 'p' && name[12] == 'a'
        && name[13] == 'c' && name[14] == 'e' && name[15] == 'v' && name[16] == '2');
    assert("createworkspacev2>>"@ =~= name + ">>"@);
    lemma_named_line(name, data);
}

proof fn lemma_destroyworkspacev2(data: Seq<char>)
    ensures
        split_at_first("destroyworkspacev2>>"@ + data, ">>"@) == Some(("destroyworkspacev2"@,
            data)),
{
    reveal_strlit("destroyworkspacev2");
    reveal_strlit(">>");
    reveal_strlit("destroyworkspacev2>>");
    let name = "destroyworkspacev2"@;
    assert(name.len() == 18 && name[0] == 'd' && name[1] == 'e' && name[2] == 's' && name[3] == 't'
        && name[4] == 'r' && name[5] == 'o' && name[6] == 'y' && name[7] == 'w' && name[8] == 'o'
        && name[9] == 'r' && name[10] == 'k' && name[11] == 's' && name[12] == 'p'
        && name[13] == 'a' && name[14] == 'c' && name[15] == 'e' && name[16] == 'v'
        && name[17] == '2');
    assert("destroyworkspacev2>>"@ =~= name + ">>"@);
    lemma_named_line(name, data);
}

proof fn lemma_monitoradded(data: Seq<char>)
    ensures
        split_at_first("monitoradded>>"@ + data, ">>"@) == Some(("monitoradded"@, data)),
{
    reveal_strlit("monitoradded");
    reveal_strlit(">>");
    reveal_strlit("monitoradded>>");
    let name = "monitoradded"@;
    assert(name.len() == 12 && name[0] == 'm' && name[1] == 'o' && name[2] == 'n' && name[3] == 'i'
        && name[4] == 't' && name[5] == 'o' && name[6] == 'r' && name[7] == 'a' && name[8] == 'd'
        && name[9] == 'd' && name[10] == 'e' && name[11] == 'd');
    assert("monitoradded>>"@ =~= name + ">>"@);
    lemma_named_line(name, data);
}

proof fn lemma_monitorremoved(data: Seq<char>)
    ensures
        split_at_first("monitorremoved>>"@ + data, ">>"@) == Some(("monitorremoved"@, data)),
{
    reveal_strlit("monitorremoved");
    reveal_strlit(">>");
    reveal_strlit("monitorremoved>>");
    let name = "monitorremoved"@;
    assert(name.len() == 14 && name[0] == 'm' && name[1] == 'o' && name[2] == 'n' && name[3] == 'i'
        && name[4] == 't' && name[5] == 'o' && name[6] == 'r' && name[7] == 'r' && name[8] == 'e'
        && name[9] == 'm' && name[10] == 'o' && name[11] == 'v' && name[12] == 'e'
        && name[13] == 'd');
    assert("monitorremoved>>"@ =~= name + ">>"@);
    lemma_named_line(name, data);
}

/// After a line of the full screen it is known to be on exactly if what the line says is
/// "1", whatever was known before. A line that says otherwise than what was known brings
/// an event with the state before and the state after.
pub proof fn fullscreen_lines(t: TranslatorView, data: Seq<char>)
    ensures
        known_after(t, "fullscreen>>"@ + data) == (TranslatorView { fullscreen: trimmed(data)
            == "1"@, ..t }),
        (t.fullscreen == (trimmed(data) == "1"@)) ==> event_of(t, "fullscreen>>"@ + data) is None,
        !(t.fullscreen == (trimmed(data) == "1"@)) ==> event_of(t, "fullscreen>>"@ + data) == Some(
            (EventView { name: "window_state_change"@, prev: Some(map!["fullscreen"@
                => JsonView::Bool(t.fullscreen)]), curr: Some(map!["fullscreen"@
                => JsonView::Bool(trimmed(data) == "1"@)]) }),
        ),
        known_after(t, "fullscreen>>1"@).fullscreen,
        !known_after(t, "fullscreen>>0"@).fullscreen,
        t.fullscreen ==> (event_of(t, "fullscreen>>0"@) matches Some(e) && e.curr == Some(
            map!["fullscreen"@ => JsonView::Bool(false)],
        )),
{
    lemma_line_names();
    lemma_fullscreen(data);
    lemma_fullscreen("1"@);
    lemma_fullscreen("0"@);
    reveal_strlit("fullscreen>>");
    reveal_strlit("fullscreen>>0");
    reveal_strlit("fullscreen>>1");
    reveal_strlit("0");
    reveal_strlit("1");
    assert("0"@ =~= seq!['0'] && "1"@ =~= seq!['1']);
    assert("fullscreen>>1"@ =~= "fullscreen>>"@ + "1"@);
    assert("fullscreen>>0"@ =~= "fullscreen>>"@ + "0"@);
    let none = Seq::<char>::empty();
    ascii_white_space('0');
    ascii_white_space('1');
    trimming_keeps_the_text(none, "0"@, none);
    trimming_keeps_the_text(none, "1"@, none);
    assert(none + "0"@ + none =~= "0"@ && none + "1"@ + none =~= "1"@);
    assert("0"@[0] != "1"@[0]);
    assert(one_field("fullscreen"@, JsonView::Bool(false)) =~= map![
        "fullscreen"@ => JsonView::Bool(false),
    ]);
}

/// A line of the workspace names the workspace that is active from then on.
pub proof fn workspace_lines(t: TranslatorView, id: i64, id_text: Seq<char>, name: Seq<char>)
    requires
        !id_text.contains(','),
        i64_text(id_text) == Some(id),
    ensures
        known_after(t, "workspacev2>>"@ + (id_text + ","@ + name))
            == (TranslatorView { workspace_id: id as int, workspace_name: name, ..t }),
        (t.workspace_id == id && t.workspace_name == name) ==> event_of(t,
            "workspacev2>>"@ + (id_text + ","@ + name)) is None,
        !(t.workspace_id == id && t.workspace_name == name) ==> event_of(t,
            "workspacev2>>"@ + (id_text + ","@ + name)) == Some(
            (EventView { name: "workspace_change"@, prev: Some(map!["id"@
                => JsonView::Number(NumberView::Int(t.workspace_id)),
                "name"@ => JsonView::Str(t.workspace_name)]),
                curr: Some(map!["id"@ => JsonView::Number(NumberView::Int(id as int)),
                "name"@ => JsonView::Str(name)]) }),
        ),
{
    lemma_line_names();
    lemma_workspacev2(id_text + ","@ + name);
    lemma_comma(id_text, name);
}

/// A line of the active window gives its class and then its title, which may hold commas.
pub proof fn window_lines(t: TranslatorView, class: Seq<char>, title: Seq<char>)
    requires
        !class.contains(','),
    ensures
        known_after(t, "activewindow>>"@ + (class + ","@ + title)) == (TranslatorView { title,
            appid: class, ..t }),
        (t.title == title && t.appid == class) ==> event_of(t,
            "activewindow>>"@ + (class + ","@ + title)) is None,
        !(t.title == title && t.appid == class) ==> event_of(t,
            "activewindow>>"@ + (class + ","@ + title)) == Some(
            (EventView { name: "focus_change"@, prev: Some(map!["title"@ => JsonView::Str(t.title),
                "appid"@ => JsonView::Str(t.appid)]), curr: Some(map!["title"@
                => JsonView::Str(title), "appid"@ => JsonView::Str(class)]) }),
        ),
{
    lemma_line_names();
    lemma_activewindow(class + ","@ + title);
    lemma_comma(class, title);
}

/// A line of the focused monitor gives the monitor and its workspace. What was known of
/// the workspace before is not told.
pub proof fn monitor_lines(t: TranslatorView, monitor: Seq<char>, workspace: Seq<char>)
    requires
        !monitor.contains(','),
    ensures
        known_after(t, "focusedmon>>"@ + (monitor + ","@ + workspace))
            == (TranslatorView { output: monitor, output_workspace: workspace, ..t }),
        (t.output == monitor && t.output_workspace == workspace) ==> event_of(t,
            "focusedmon>>"@ + (monitor + ","@ + workspace)) is None,
        !(t.output == monitor && t.output_workspace == workspace) ==> event_of(t,
            "focusedmon>>"@ + (monitor + ","@ + workspace)) == Some(
            (EventView { name: "output_focus"@, prev: Some(map!["output"@
                => JsonView::Str(t.output)]), curr: Some(map!["output"@ => JsonView::Str(monitor),
                "workspace"@ => JsonView::Str(workspace)]) }),
        ),
{
    lemma_line_names();
    lemma_focusedmon(monitor + ","@ + workspace);
    lemma_comma(monitor, workspace);
}

/// A line of the key bindings gives the mode that they are in.
pub proof fn submap_lines(t: TranslatorView, data: Seq<char>)
    ensures
        known_after(t, "submap>>"@ + data) == (TranslatorView { keymode: data, ..t }),
        (t.keymode == data) ==> event_of(t, "submap>>"@ + data) is None,
        !(t.keymode == data) ==> event_of(t, "submap>>"@ + data) == Some(
            (EventView { name: "keymode_change"@, prev: Some(map!["keymode"@
                => JsonView::Str(t.keymode)]), curr: Some(map!["keymode"@
                => JsonView::Str(data)]) }),
        ),
{
    lemma_line_names();
    lemma_submap(data);
}

/// A line of the keyboard gives the keyboard and then the layout that it has.
pub proof fn keyboard_lines(t: TranslatorView, keyboard: Seq<char>, layout: Seq<char>)
    requires
        !keyboard.contains(','),
    ensures
        known_after(t, "activelayout>>"@ + (keyboard + ","@ + layout))
            == (TranslatorView { kb_layout: layout, ..t }),
        (t.kb_layout == layout) ==> event_of(t, "activelayout>>"@ + (keyboard + ","@
            + layout)) is None,
        !(t.kb_layout == layout) ==> event_of(t, "activelayout>>"@ + (keyboard + ","@ + layout))
            == Some(
            (EventView { name: "keyboard_layout_change"@, prev: Some(map!["kb_layout"@
                => JsonView::Str(t.kb_layout)]), curr: Some(map!["kb_layout"@
                => JsonView::Str(layout)]) }),
        ),
{
    lemma_line_names();
    lemma_activelayout(keyboard + ","@ + layout);
    lemma_comma(keyboard, layout);
}

/// A line of a new window gives its address, workspace, class and title, of which the
/// title may hold commas. Nothing that is known changes.
pub proof fn opened_windows(t: TranslatorView, address: Seq<char>, workspace: Seq<char>,
    class: Seq<char>, title: Seq<char>)
    requires
        !address.contains(','),
        !workspace.contains(','),
        !class.contains(','),
    ensures
        known_after(t, "openwindow>>"@ + (address + ","@ + (workspace + ","@ + (class + ","@
            + title)))) == t,
        event_of(t, "openwindow>>"@ + (address + ","@ + (workspace + ","@ + (class + ","@
            + title)))) == Some(
            (EventView { name: "window_open"@, prev: None, curr: Some(map!["address"@
                => JsonView::Str(address), "workspace"@ => JsonView::Str(workspace),
                "appid"@ => JsonView::Str(class), "title"@ => JsonView::Str(title)]) }),
        ),
{
    lemma_line_names();
    lemma_openwindow(address + ","@ + (workspace + ","@ + (class + ","@ + title)));
    lemma_comma(address, workspace + ","@ + (class + ","@ + title));
    lemma_comma(workspace, class + ","@ + title);
    lemma_comma(class, title);
}

/// A line of a closed window gives its address.
pub proof fn closed_windows(t: TranslatorView, data: Seq<char>)
    ensures
        known_after(t, "closewindow>>"@ + data) == t,
        event_of(t, "closewindow>>"@ + data) == Some(
            (EventView { name: "window_close"@, prev: Some(map!["address"@
                => JsonView::Str(data)]), curr: None }),
        ),
{
    lemma_line_names();
    lemma_closewindow(data);
}

/// A line of a new workspace gives its number and name.
pub proof fn created_workspaces(t: TranslatorView, id: i64, id_text: Seq<char>, name: Seq<char>)
    requires
        !id_text.contains(','),
        i64_text(id_text) == Some(id),
    ensures
        known_after(t, "createworkspacev2>>"@ + (id_text + ","@ + name)) == t,
        event_of(t, "createworkspacev2>>"@ + (id_text + ","@ + name)) == Some(
            (EventView { name: "workspace_create"@, prev: None,
                curr: Some(map!["id"@ => JsonView::Number(NumberView::Int(id as int)),
                "name"@ => JsonView::Str(name)]) }),
        ),
{
    lemma_line_names();
    lemma_createworkspacev2(id_text + ","@ + name);
    lemma_comma(id_text, name);
}

/// A line of a workspace that is gone gives its number and name.
pub proof fn destroyed_workspaces(t: TranslatorView, id: i64, id_text: Seq<char>, name: Seq<char>)
    requires
        !id_text.contains(','),
        i64_text(id_text) == Some(id),
    ensures
        known_after(t, "destroyworkspacev2>>"@ + (id_text + ","@ + name)) == t,
        event_of(t, "destroyworkspacev2>>"@ + (id_text + ","@ + name)) == Some(
            (EventView { name: "workspace_destroy"@, prev: Some(map!["id"@
                => JsonView::Number(NumberView::Int(id as int)), "name"@ => JsonView::Str(name)]),
                curr: None }),
        ),
{
    lemma_line_names();
    lemma_destroyworkspacev2(id_text + ","@ + name);
    lemma_comma(id_text, name);
}

/// A line of a new monitor gives its name.
pub proof fn added_monitors(t: TranslatorView, data: Seq<char>)
    ensures
        known_after(t, "monitoradded>>"@ + data) == t,
        event_of(t, "monitoradded>>"@ + data) == Some(
            (EventView { name: "output_add"@, prev: None, curr: Some(map!["output"@
                => JsonView::Str(data)]) }),
        ),
{
    lemma_line_names();
    lemma_monitoradded(data);
}

/// A line of a monitor that is gone gives its name.
pub proof fn removed_monitors(t: TranslatorView, data: Seq<char>)
    ensures
        known_after(t, "monitorremoved>>"@ + data) == t,
        event_of(t, "monitorremoved>>"@ + data) == Some(
            (EventView { name: "output_remove"@, prev: Some(map!["output"@
                => JsonView::Str(data)]), curr: None }),
        ),
{
    lemma_line_names();
    lemma_monitorremoved(data);
}

/// Data without a comma brings nothing where a comma is owed.
pub proof fn malformed_lines(t: TranslatorView, data: Seq<char>)
    requires
        !data.contains(','),
    ensures
        event_of(t, "workspacev2>>"@ + data) is None && known_after(t,
            "workspacev2>>"@ + data) == t,
        event_of(t, "activewindow>>"@ + data) is None && known_after(t,
            "activewindow>>"@ + data) == t,
        event_of(t, "focusedmon>>"@ + data) is None && known_after(t, "focusedmon>>"@ + data) == t,
        event_of(t, "activelayout>>"@ + data) is None && known_after(t,
            "activelayout>>"@ + data) == t,
        event_of(t, "openwindow>>"@ + data) is None && known_after(t, "openwindow>>"@ + data) == t,
        event_of(t, "createworkspacev2>>"@ + data) is None && known_after(t,
            "createworkspacev2>>"@ + data) == t,
        event_of(t, "destroyworkspacev2>>"@ + data) is None && known_after(t,
            "destroyworkspacev2>>"@ + data) == t,
{
    lemma_line_names();
    lemma_comma(data, data);
    lemma_workspacev2(data);
    lemma_activewindow(data);
    lemma_focusedmon(data);
    lemma_activelayout(data);
    lemma_openwindow(data);
    lemma_createworkspacev2(data);
    lemma_destroyworkspacev2(data);
}

/// A workspace whose number is none brings nothing.
pub proof fn workspaces_have_numbers(t: TranslatorView, id_text: Seq<char>, name: Seq<char>)
    requires
        !id_text.contains(','),
        i64_text(id_text) is None,
    ensures
        event_of(t, "workspacev2>>"@ + (id_text + ","@ + name)) is None && known_after(t,
            "workspacev2>>"@ + (id_text + ","@ + name)) == t,
        event_of(t, "createworkspacev2>>"@ + (id_text + ","@ + name)) is None && known_after(t,
            "createworkspacev2>>"@ + (id_text + ","@ + name)) == t,
        event_of(t, "destroyworkspacev2>>"@ + (id_text + ","@ + name)) is None && known_after(t,
            "destroyworkspacev2>>"@ + (id_text + ","@ + name)) == t,
{
    lemma_line_names();
    lemma_comma(id_text, name);
    lemma_workspacev2(id_text + ","@ + name);
    lemma_createworkspacev2(id_text + ","@ + name);
    lemma_destroyworkspacev2(id_text + ","@ + name);
}

/// A line of another name brings nothing, and neither does one without a name.
pub proof fn other_lines(t: TranslatorView, name: Seq<char>, data: Seq<char>)
    requires
        !name.contains('>'),
    ensures
        name != "workspacev2"@ && name != "activewindow"@ && name != "focusedmon"@
            && name != "fullscreen"@ && name != "submap"@ && name != "activelayout"@
            && name != "openwindow"@ && name != "closewindow"@ && name != "createworkspacev2"@
            && name != "destroyworkspacev2"@ && name != "monitoradded"@
            && name != "monitorremoved"@ ==> event_of(t, name + ">>"@ + data) is None
            && known_after(t, name + ">>"@ + data) == t,
        event_of(t, name) is None && known_after(t, name) == t,
{
    lemma_named_line(name, data);
}

proof fn lemma_keys()
    ensures
        "workspace"@ != "workspace_name"@,
        "workspace"@ != "workspaces"@,
        "workspace"@ != "title"@,
        "workspace"@ != "appid"@,
        "workspace"@ != "fullscreen"@,
        "workspace"@ != "floating"@,
        "workspace"@ != "output"@,
        "workspace"@ != "outputs"@,
        "workspace"@ != "client_count"@,
        "workspace_name"@ != "workspaces"@,
        "workspace_name"@ != "title"@,
        "workspace_name"@ != "appid"@,
        "workspace_name"@ != "fullscreen"@,
        "workspace_name"@ != "floating"@,
        "workspace_name"@ != "output"@,
        "workspace_name"@ != "outputs"@,
        "workspace_name"@ != "client_count"@,
        "workspaces"@ != "title"@,
        "workspaces"@ != "appid"@,
        "workspaces"@ != "fullscreen"@,
        "workspaces"@ != "floating"@,
        "workspaces"@ != "output"@,
        "workspaces"@ != "outputs"@,
        "workspaces"@ != "client_count"@,
        "title"@ != "appid"@,
        "title"@ != "fullscreen"@,
        "title"@ != "floating"@,
        "title"@ != "output"@,
        "title"@ != "outputs"@,
        "title"@ != "client_count"@,
        "appid"@ != "fullscreen"@,
        "appid"@ != "floating"@,
        "appid"@ != "output"@,
        "appid"@ != "outputs"@,
        "appid"@ != "client_count"@,
        "fullscreen"@ != "floating"@,
        "fullscreen"@ != "output"@,
        "fullscreen"@ != "outputs"@,
        "fullscreen"@ != "client_count"@,
        "floating"@ != "output"@,
        "floating"@ != "outputs"@,
        "floating"@ != "client_count"@,
        "output"@ != "outputs"@,
        "output"@ != "client_count"@,
        "outputs"@ != "client_count"@,
{
    reveal_strlit("workspace");
    reveal_strlit("workspace_name");
    reveal_strlit("workspaces");
    reveal_strlit("title");
    reveal_strlit("appid");
    reveal_strlit("fullscreen");
    reveal_strlit("floating");
    reveal_strlit("output");
    reveal_strlit("outputs");
    reveal_strlit("client_count");
    assert("workspace"@.len() == 9);
    assert("workspace_name"@.len() == 14);
    assert("workspaces"@.len() == 10 && "workspaces"@[0] == 'w');
    assert("title"@.len() == 5 && "title"@[0] == 't');
    assert("appid"@.len() == 5 && "appid"@[0] == 'a');
    assert("fullscreen"@.len() == 10 && "fullscreen"@[0] == 'f');
    assert("floating"@.len() == 8);
    assert("output"@.len() == 6);
    assert("outputs"@.len() == 7);
    assert("client_count"@.len() == 12);
}

/// Whether the active window floats is what its member `floating` says, and it does not
/// where that says nothing. Setting the state dispatches exactly where the window's own
/// member differs from what is wanted.
pub proof fn floating_follows_the_window(
    window: Map<Seq<char>, JsonView>,
    b: bool,
    want: bool,
    other: JsonView,
)
    requires
        other !is Bool,
    ensures
        value_for("floating"@, JsonView::Object(window.insert("floating"@, JsonView::Bool(b))))
            == Ok::<JsonView, Seq<char>>(JsonView::Bool(b)),
        value_for("floating"@, JsonView::Object(window.insert("floating"@, other))) == Ok::<
            JsonView,
            Seq<char>,
        >(JsonView::Bool(false)),
        value_for("floating"@, JsonView::Object(window.remove("floating"@))) == Ok::<
            JsonView,
            Seq<char>,
        >(JsonView::Bool(false)),
        set_step_for("floating"@, JsonView::Bool(want)) == Ok::<SetStepView, Seq<char>>(
            SetStepView::ToggleTo(Toggle::Floating, want),
        ),
        set_step_for("floating"@, other) == Err::<SetStepView, Seq<char>>(
            "floating must be a boolean"@,
        ),
        toggle_for(
            Toggle::Floating,
            want,
            JsonView::Object(window.insert("floating"@, JsonView::Bool(b))),
        ) == (if want != b {
            Some("togglefloating"@)
        } else {
            None
        }),
        toggle_for(Toggle::Floating, want, JsonView::Object(window.insert("floating"@, other))) == (
        if want {
            Some("togglefloating"@)
        } else {
            None
        }),
        toggle_for(Toggle::Floating, want, JsonView::Object(window.remove("floating"@)))
            == (if want {
            Some("togglefloating"@)
        } else {
            None
        }),
{
    lemma_keys();
}

/// Whether the active window fills the screen is what its member `fullscreen` says: a
/// truth value, or a mode that is not 0. Setting the state dispatches exactly where the
/// window's own member differs from what is wanted.
pub proof fn fullscreen_follows_the_window(
    window: Map<Seq<char>, JsonView>,
    b: bool,
    mode: i64,
    want: bool,
    other: JsonView,
)
    requires
        other !is Bool,
        other !is Number,
    ensures
        value_for("fullscreen"@, JsonView::Object(window.insert("fullscreen"@, JsonView::Bool(b))))
            == Ok::<JsonView, Seq<char>>(JsonView::Bool(b)),
        value_for(
            "fullscreen"@,
            JsonView::Object(
                window.insert("fullscreen"@, JsonView::Number(NumberView::Int(mode as int))),
            ),
        ) == Ok::<JsonView, Seq<char>>(JsonView::Bool(mode != 0)),
        value_for("fullscreen"@, JsonView::Object(window.insert("fullscreen"@, other))) == Ok::<
            JsonView,
            Seq<char>,
        >(JsonView::Bool(false)),
        value_for("fullscreen"@, JsonView::Object(window.remove("fullscreen"@))) == Ok::<
            JsonView,
            Seq<char>,
        >(JsonView::Bool(false)),
        set_step_for("fullscreen"@, JsonView::Bool(want)) == Ok::<SetStepView, Seq<char>>(
            SetStepView::ToggleTo(Toggle::Fullscreen, want),
        ),
        set_step_for("fullscreen"@, other) == Err::<SetStepView, Seq<char>>(
            "fullscreen must be a boolean"@,
        ),
        set_step_for("fullscreen"@, JsonView::Number(NumberView::Int(mode as int))) == Err::<
            SetStepView,
            Seq<char>,
        >("fullscreen must be a boolean"@),
        toggle_for(
            Toggle::Fullscreen,
            want,
            JsonView::Object(window.insert("fullscreen"@, JsonView::Bool(b))),
        ) == (if want != b {
            Some("fullscreen 0"@)
        } else {
            None
        }),
        toggle_for(
            Toggle::Fullscreen,
            want,
            JsonView::Object(
                window.insert("fullscreen"@, JsonView::Number(NumberView::Int(mode as int))),
            ),
        ) == (if want != (mode != 0) {
            Some("fullscreen 0"@)
        } else {
            None
        }),
        toggle_for(Toggle::Fullscreen, want, JsonView::Object(window.remove("fullscreen"@))) == (
        if want {
            Some("fullscreen 0"@)
        } else {
            None
        }),
{
    lemma_keys();
}

/// The active workspace is changed by its number or its name, and by nothing else. No
/// other key can be set.
pub proof fn workspaces_are_chosen(id: i64, name: Seq<char>, other: JsonView, key: Seq<char>)
    requires
        other !is Number,
        other !is Str,
    ensures
        set_step_for("workspace"@, JsonView::Number(NumberView::Int(id as int))) == Ok::<
            SetStepView,
            Seq<char>,
        >(SetStepView::Dispatch("workspace "@ + int_text(id as int))),
        set_step_for("workspace"@, JsonView::Str(name)) == Ok::<SetStepView, Seq<char>>(
            SetStepView::Dispatch("workspace "@ + name),
        ),
        set_step_for("workspace"@, other) == Err::<SetStepView, Seq<char>>(
            "workspace must be a number or string"@,
        ),
        key != "workspace"@ && key != "fullscreen"@ && key != "floating"@ ==> forall|v: JsonView|
            #[trigger] set_step_for(key, v) == Err::<SetStepView, Seq<char>>(
                "Cannot set '"@ + key + "' (read-only or unknown)"@,
            ),
{
    lemma_keys();
}

/// Each key is answered by one query, and a key that is not listed by none.
pub proof fn keys_are_queried(key: Seq<char>)
    ensures
        query_for("workspace"@) == Some("activeworkspace"@),
        query_for("workspace_name"@) == Some("activeworkspace"@),
        query_for("workspaces"@) == Some("workspaces"@),
        query_for("title"@) == Some("activewindow"@),
        query_for("appid"@) == Some("activewindow"@),
        query_for("fullscreen"@) == Some("activewindow"@),
        query_for("floating"@) == Some("activewindow"@),
        query_for("output"@) == Some("monitors"@),
        query_for("outputs"@) == Some("monitors"@),
        query_for("client_count"@) == Some("clients"@),
        key != "workspace"@ && key != "workspace_name"@ && key != "workspaces"@ && key != "title"@
            && key != "appid"@ && key != "fullscreen"@ && key != "floating"@ && key != "output"@
            && key != "outputs"@ && key != "client_count"@ ==> query_for(key) is None && forall|
            doc: JsonView,
        | #[trigger]
            value_for(key, doc) == Err::<JsonView, Seq<char>>("Unknown key: "@ + key),
{
    lemma_keys();
}

/// Of the active workspace and the active window the members are read that the keys stand
/// for. A title or class that is no text is read as the empty one.
pub proof fn members_are_read(
    doc: Map<Seq<char>, JsonView>,
    value: JsonView,
    text: Seq<char>,
    other: JsonView,
)
    requires
        other !is Str,
    ensures
        value_for("workspace"@, JsonView::Object(doc.insert("id"@, value))) == Ok::<
            JsonView,
            Seq<char>,
        >(value),
        value_for("workspace"@, JsonView::Object(doc.remove("id"@))) == Ok::<JsonView, Seq<char>>(
            JsonView::Null,
        ),
        value_for("workspace_name"@, JsonView::Object(doc.insert("name"@, value))) == Ok::<
            JsonView,
            Seq<char>,
        >(value),
        value_for("workspace_name"@, JsonView::Object(doc.remove("name"@))) == Ok::<
            JsonView,
            Seq<char>,
        >(JsonView::Null),
        value_for("title"@, JsonView::Object(doc.insert("title"@, JsonView::Str(text)))) == Ok::<
            JsonView,
            Seq<char>,
        >(JsonView::Str(text)),
        value_for("title"@, JsonView::Object(doc.insert("title"@, other))) == Ok::<
            JsonView,
            Seq<char>,
        >(JsonView::Str(""@)),
        value_for("title"@, JsonView::Object(doc.remove("title"@))) == Ok::<JsonView, Seq<char>>(
            JsonView::Str(""@),
        ),
        value_for("appid"@, JsonView::Object(doc.insert("class"@, JsonView::Str(text)))) == Ok::<
            JsonView,
            Seq<char>,
        >(JsonView::Str(text)),
        value_for("appid"@, JsonView::Object(doc.insert("class"@, other))) == Ok::<
            JsonView,
            Seq<char>,
        >(JsonView::Str(""@)),
        value_for("appid"@, JsonView::Object(doc.remove("class"@))) == Ok::<JsonView, Seq<char>>(
            JsonView::Str(""@),
        ),
{
    lemma_keys();
}

/// Workspaces are listed one for one, with their number and name. Windows are counted.
/// What is no list counts as an empty one.
pub proof fn lists_are_read(items: Seq<JsonView>, i: int, other: JsonView)
    requires
        0 <= i < items.len(),
        other !is Array,
    ensures
        value_for("client_count"@, JsonView::Array(items)) == Ok::<JsonView, Seq<char>>(
            JsonView::Number(NumberView::Int(items.len() as int)),
        ),
        value_for("client_count"@, other) == Ok::<JsonView, Seq<char>>(
            JsonView::Number(NumberView::Int(0)),
        ),
        ({
            let listed = value_for("workspaces"@, JsonView::Array(items));
            &&& listed is Ok && listed->Ok_0 is Array
            &&& listed->Ok_0->Array_0.len() == items.len()
            &&& listed->Ok_0->Array_0[i] == JsonView::Object(
                map![
                    "id"@ => json_member(items[i], "id"@),
                    "name"@ => json_member(items[i], "name"@),
                ],
            )
        }),
        value_for("workspaces"@, other) == Ok::<JsonView, Seq<char>>(
            JsonView::Array(Seq::empty()),
        ),
{
    lemma_keys();
    assert(listed_workspace(items[i])->Object_0 =~= map![
        "id"@ => json_member(items[i], "id"@),
        "name"@ => json_member(items[i], "name"@),
    ]);
    assert(value_for("workspaces"@, other)->Ok_0->Array_0 =~= Seq::<JsonView>::empty());
}

/// The focused output is the first monitor whose member `focused` is the boolean true.
pub proof fn the_first_focused_monitor_is_read(monitors: Seq<JsonView>, i: int)
    ensures
        0 <= i < monitors.len() && json_member(monitors[i], "focused"@) == JsonView::Bool(true) && (
        forall|j: int|
            0 <= j < i ==> json_member(#[trigger] monitors[j], "focused"@) != JsonView::Bool(true))
            ==> value_for("output"@, JsonView::Array(monitors)) == Ok::<JsonView, Seq<char>>(
            json_member(monitors[i], "name"@),
        ),
        (forall|j: int|
            0 <= j < monitors.len() ==> json_member(#[trigger] monitors[j], "focused"@)
                != JsonView::Bool(true)) ==> value_for("output"@,
                    JsonView::Array(monitors)) == Err::<
            JsonView,
            Seq<char>,
        >("No focused monitor reported by Hyprland"@),
    decreases monitors.len(),
{
    lemma_keys();
    if monitors.len() > 0 {
        let rest = monitors.skip(1);
        the_first_focused_monitor_is_read(rest, i - 1);
        assert(forall|j: int| 0 <= j < rest.len() ==> rest[j] == monitors[j + 1]);
        assert(forall|j: int| 0 < j < monitors.len() ==> #[trigger] monitors[j] == rest[j - 1]);
    }
}

/// The outputs are the names of the monitors, in their order, without those that have none.
pub proof fn monitors_are_named(
    monitors: Seq<JsonView>,
    monitor: Map<Seq<char>, JsonView>,
    name: Seq<char>,
    other: JsonView,
    last: JsonView,
)
    requires
        other !is Str,
        last !is Object,
    ensures
        value_for("outputs"@, JsonView::Array(Seq::empty())) == Ok::<JsonView, Seq<char>>(
            JsonView::Array(Seq::empty()),
        ),
        value_for("outputs"@, JsonView::Array(monitors)) is Ok,
        value_for("outputs"@, JsonView::Array(monitors))->Ok_0 is Array,
        value_for(
            "outputs"@,
            JsonView::Array(
                monitors.push(JsonView::Object(monitor.insert("name"@, JsonView::Str(name)))),
            ),
        ) == Ok::<JsonView, Seq<char>>(
            JsonView::Array(
                value_for("outputs"@, JsonView::Array(monitors))->Ok_0->Array_0.push(
                    JsonView::Str(name),
                ),
            ),
        ),
        value_for(
            "outputs"@,
            JsonView::Array(monitors.push(JsonView::Object(monitor.insert("name"@, other)))),
        ) == value_for("outputs"@, JsonView::Array(monitors)),
        value_for(
            "outputs"@,
            JsonView::Array(monitors.push(JsonView::Object(monitor.remove("name"@)))),
        ) == value_for("outputs"@, JsonView::Array(monitors)),
        value_for("outputs"@, JsonView::Array(monitors.push(last))) == value_for(
            "outputs"@,
            JsonView::Array(monitors),
        ),
{
    lemma_keys();
    assert(forall|m: JsonView| #[trigger] monitors.push(m).drop_last() =~= monitors);
    assert(forall|m: JsonView| #[trigger] monitors.push(m).last() == m);
}

/// A dispatch was carried out exactly if the answer is "ok", with white space around it
/// or not. Any other answer is told.
pub proof fn dispatches_are_acknowledged(
    args: Seq<char>,
    l: Seq<char>,
    r: Seq<char>,
    response: Seq<char>,
)
    requires
        all_white(l),
        all_white(r),
    ensures
        dispatch_answer(args, l + "ok"@ + r) == Ok::<(), Seq<char>>(()),
        trimmed(response) != "ok"@ ==> dispatch_answer(args, response) == Err::<(), Seq<char>>(
            "Hyprland dispatch '"@ + args + "' failed: "@ + response,
        ),
{
    reveal_strlit("ok");
    assert("ok"@ =~= seq!['o', 'k']);
    ascii_white_space('o');
    ascii_white_space('k');
    trimming_keeps_the_text(l, "ok"@, r);
}

/// The answer to a query is the document that it holds, and one that holds none is told.
pub proof fn queries_are_answered(cmd: Seq<char>, response: Seq<char>, doc: JsonView)
    ensures
        query_answer(cmd, response) == Ok::<JsonView, Seq<char>>(doc) <==> json_parse(response)
            == Some(doc),
        json_parse(response) is None ==> query_answer(cmd, response) == Err::<JsonView, Seq<char>>(
            "Invalid JSON from Hyprland for '"@ + cmd + "': "@ + response,
        ),
{
}

/// The sockets are looked for below the runtime directory first, where there is one, and
/// then below the directory of temporary files.
pub proof fn sockets_are_looked_for(signature: Seq<char>, dir: Seq<char>)
    ensures
        socket_dirs(signature, Some(dir)).len() == 2,
        socket_dirs(signature, Some(dir))[0] == joined_path(joined_path(dir, "hypr"@), signature),
        socket_dirs(signature, Some(dir))[1] == joined_path("/tmp/hypr"@, signature),
        socket_dirs(signature, None) == seq![joined_path("/tmp/hypr"@, signature)],
{
}

/// Before the first line no window, workspace or output is known, and nothing fills the
/// screen.
pub proof fn nothing_is_known_at_first()
    ensures
        nothing_known().workspace_id == 0 && nothing_known().workspace_name.len() == 0,
        nothing_known().title.len() == 0 && nothing_known().appid.len() == 0,
        nothing_known().output.len() == 0 && nothing_known().output_workspace.len() == 0,
        !nothing_known().fullscreen,
        nothing_known().keymode.len() == 0 && nothing_known().kb_layout.len() == 0,
{
    reveal_strlit("");
}

/// The version of a compositor that runs is what it says, and that none is there is told.
pub proof fn versions_are_told(response: &str, r: Result<String, String>, v: Seq<char>)
    requires
        call_ensures(init_reply, (response,), r),
    ensures
        json_parse(response@) is None ==> (r matches Err(e) && e@
            == "Failed to query Hyprland version - is Hyprland running?"@),
        json_parse(response@) matches Some(doc) ==> (r matches Ok(tag) && (json_member(doc, "tag"@)
            == JsonView::Str(v) ==> tag@ == v) && (json_member(doc, "tag"@) !is Str ==> tag@
            == "(unknown version)"@)),
{
}

/// A key is read from the answer to its query: the value in the document, or why there is
/// none.
pub proof fn answers_are_read(
    key: &str,
    response: &str,
    query: Result<&'static str, String>,
    r: Result<JsonValue, String>,
)
    requires
        call_ensures(get_query, (key,), query),
        call_ensures(get_reply, (key, response), r),
    ensures
        query is Ok <==> query_for(key@) is Some,
        query matches Ok(q) ==> query_for(key@) == Some(q@),
        query matches Err(e) ==> e@ == "Unknown key: "@ + key@,
        query is Err ==> (r matches Err(e) && e@ == "Unknown key: "@ + key@),
        query matches Ok(q) ==> (json_parse(response@) matches Some(doc) ==> value_result(r)
            == value_for(key@, doc)),
        query matches Ok(q) ==> json_parse(response@) is None ==> (r matches Err(e) && e@
            == "Invalid JSON from Hyprland for '"@ + q@ + "': "@ + response@),
{
}

/// A state is toggled as the window in the answer asks, and not at all where the answer
/// holds no window.
pub proof fn toggles_follow_the_answer(
    toggle: Toggle,
    want: bool,
    response: &str,
    r: Result<Option<&'static str>, String>,
)
    requires
        call_ensures(toggle_reply, (toggle, want, response), r),
    ensures
        json_parse(response@) matches Some(window) ==> (r matches Ok(args) && opt_text(args)
            == toggle_for(toggle, want, window)),
        json_parse(response@) is None ==> r is Err,
{
}

/// The directory of the sockets is the first candidate that has one. That there is none, or
/// that it is not known which instance runs, is told.
pub proof fn socket_directories_are_chosen(
    signature: &str,
    runtime_dir: Option<&str>,
    dirs: Vec<String>,
    found: Vec<bool>,
    candidates: Result<Vec<String>, String>,
    unknown: Result<Vec<String>, String>,
    r: Result<String, String>,
)
    requires
        call_ensures(socket_dir_candidates, (Some(signature), runtime_dir), candidates),
        call_ensures(socket_dir_candidates, (None::<&str>, runtime_dir), unknown),
        call_ensures(choose_socket_dir, (signature, &dirs, &found), r),
    ensures
        candidates matches Ok(list) && texts(list@) == socket_dirs(signature@,
            opt_text(runtime_dir)),
        unknown matches Err(e) && e@
            == "HYPRLAND_INSTANCE_SIGNATURE is not set - is Hyprland running? (set [adapter] socket_dir to override)"@,
        r is Ok <==> first_found(texts(dirs@), found@) is Some,
        r matches Ok(dir) ==> first_found(texts(dirs@), found@) == Some(dir@),
        r matches Err(e) ==> e@ == "Hyprland socket not found for instance '"@ + signature@
            + "' (checked $XDG_RUNTIME_DIR/hypr and /tmp/hypr)"@,
{
}

/// Whether the active window floats is read from its own member, and a dispatch that
/// toggles it comes exactly where that member differs from what is wanted.
pub proof fn floating_windows_are_toggled(
    key: &str,
    window: JsonValue,
    b: bool,
    want: bool,
    read: Result<JsonValue, String>,
    step: Option<&'static str>,
)
    requires
        key@ == "floating"@,
        window@ is Object,
        window@->Object_0.dom().contains("floating"@),
        window@->Object_0["floating"@] == JsonView::Bool(b),
        call_ensures(get_value, (key, &window), read),
        call_ensures(toggle_step, (Toggle::Floating, want, &window), step),
    ensures
        read matches Ok(v) && v@ == JsonView::Bool(b),
        step is Some <==> want != b,
        step matches Some(args) ==> args@ == "togglefloating"@,
{
    let map = window@->Object_0;
    assert(map.insert("floating"@, JsonView::Bool(b)) =~= map);
    floating_follows_the_window(map, b, want, JsonView::Null);
}

/// Whether the active window fills the screen is read from its own member, and a dispatch
/// that toggles it comes exactly where that member differs from what is wanted.
pub proof fn fullscreen_windows_are_toggled(
    key: &str,
    window: JsonValue,
    b: bool,
    want: bool,
    read: Result<JsonValue, String>,
    step: Option<&'static str>,
)
    requires
        key@ == "fullscreen"@,
        window@ is Object,
        window@->Object_0.dom().contains("fullscreen"@),
        window@->Object_0["fullscreen"@] == JsonView::Bool(b),
        call_ensures(get_value, (key, &window), read),
        call_ensures(toggle_step, (Toggle::Fullscreen, want, &window), step),
    ensures
        read matches Ok(v) && v@ == JsonView::Bool(b),
        step is Some <==> want != b,
        step matches Some(args) ==> args@ == "fullscreen 0"@,
{
    let map = window@->Object_0;
    assert(map.insert("fullscreen"@, JsonView::Bool(b)) =~= map);
    fullscreen_follows_the_window(map, b, 0, want, JsonView::Null);
}

/// What is sent to the compositor, and over which of its two sockets. A command may take ten
/// seconds.
pub proof fn requests_are_sent(
    text: &str,
    query: String,
    dispatch: String,
    late: String,
    commands: String,
    events: String,
)
    requires
        call_ensures(query_request, (text,), query),
        call_ensures(dispatch_request, (text,), dispatch),
        call_ensures(command_timed_out, (), late),
        call_ensures(cmd_socket, (text,), commands),
        call_ensures(event_socket, (text,), events),
    ensures
        query@ == seq!['j', '/'] + text@,
        dispatch@ == "dispatch "@ + text@,
        late@ == "Hyprland did not respond within "@ + crate::text::decimal(10) + "s"@,
        commands@ == joined_path(text@, ".socket.sock"@),
        events@ == joined_path(text@, ".socket2.sock"@),
{
    reveal_strlit("j/");
    assert("j/"@ =~= seq!['j', '/']);
}

} // verus!
