//! What a compositor based on dwl has announced, and the events that follow.
//!
//! The compositor announces globals, names its outputs, and then reports the
//! state of each output piece by piece. Reports are collected, and take effect
//! all at once when a frame ends.

use crate::capability::{AccessMode, Capability, CapabilityManifest, CapabilityView};
use crate::event::{EventView, RawEvent};
use crate::hyprland::declared;
use crate::keyed::{lemma_named_map, named_map, Keyed};
use crate::mangowc::{
    active_fits, active_flags, blank_output, client_tags_of, clients_total, empty_tag, fits_mask, focus_fields,
    focused_flags, geometry_of, layout_code_to_name, layout_fits, layout_label_of, layout_matches,
    layout_name_of, mask_of, occupied_flags, parse_client_tags_value, parse_tags_value,
    tags_listing, tags_of, text_result, urgent_flags, GlobalState, OutputState, OutputView, TagInfo,
    MAX_TAGS,
};
use crate::names::{ascending, sorted_names, texts, NameSet};
use crate::text::{
    decimal, joined, joined3, lex_less, lex_less_total, str_eq, u64_to_text,
};
use crate::value::{
    int_json, json_as_str, json_as_u64, one_field, state_of_one, state_of_two, text_json,
    two_fields, value_result, value_view, values_view, JsonValue, JsonView, Number, NumberView,
    StateMap,
};
use std::collections::HashMap;
use vstd::prelude::*;

verus! {

broadcast use vstd::std_specs::hash::group_hash_axioms;

/// An output of the compositor, by its announced number.
#[derive(Debug)]
pub struct KnownOutput {
    /// Its name, or a placeholder until it is known.
    name: String,
    /// Whether its status object was requested.
    bound: bool,
}

/// What is known of the compositor.
pub struct CompositorView {
    pub has_manager: bool,
    pub outputs: Map<u32, (Seq<char>, bool)>,
    pub pending_outputs: Seq<u32>,
    pub tag_count: u32,
    pub layouts: Seq<Seq<char>>,
    pub states: Map<Seq<char>, OutputView>,
    pub focused_output: Seq<char>,
    pub pending: Map<Seq<char>, OutputView>,
    pub subscriptions: Set<Seq<char>>,
    pub focused_output_id: Option<u32>,
}

/// What is known of the compositor.
#[derive(Debug)]
pub struct Compositor {
    has_manager: bool,
    outputs: HashMap<u32, KnownOutput>,
    pending_outputs: Vec<u32>,
    global: GlobalState,
    states: Keyed<OutputState>,
    focused_output: String,
    pending: Keyed<OutputState>,
    subscriptions: NameSet,
    focused_output_id: Option<u32>,
}

pub closed spec fn known_view(m: Map<u32, KnownOutput>) -> Map<u32, (Seq<char>, bool)> {
    m.map_values(|k: KnownOutput| (k.name@, k.bound))
}

impl View for Compositor {
    type V = CompositorView;

    closed spec fn view(&self) -> CompositorView {
        CompositorView {
            has_manager: self.has_manager,
            outputs: known_view(self.outputs@),
            pending_outputs: self.pending_outputs@,
            tag_count: self.global.tag_count,
            layouts: texts(self.global.layouts@),
            states: self.states@,
            focused_output: self.focused_output@,
            pending: self.pending@,
            subscriptions: self.subscriptions@,
            focused_output_id: self.focused_output_id,
        }
    }
}

/// Every tag that some output shows has a bit in a mask.
pub open spec fn all_fit(outputs: Map<Seq<char>, OutputView>) -> bool {
    forall|k: Seq<char>| #[trigger] outputs.dom().contains(k) ==> active_fits(outputs[k])
}

/// What holds of the state of a compositor after every step.
pub open spec fn well_formed(c: CompositorView) -> bool {
    all_fit(c.states) && all_fit(c.pending)
}

/// Nothing was announced yet.
pub open spec fn nothing_announced(subscriptions: Set<Seq<char>>) -> CompositorView {
    CompositorView {
        has_manager: false,
        outputs: Map::empty(),
        pending_outputs: Seq::empty(),
        tag_count: 0,
        layouts: Seq::empty(),
        states: Map::empty(),
        focused_output: ""@,
        pending: Map::empty(),
        subscriptions,
        focused_output_id: None,
    }
}

/// The name of an output that has not told its own.
pub open spec fn placeholder(id: u32) -> Seq<char> {
    "output-"@ + decimal(id as nat)
}

/// What a new global asks for.
#[derive(Debug)]
pub enum RegistryAction {
    Nothing,
    /// Bind the manager, and request the status objects of these outputs.
    BindManager { version: u32, outputs: Vec<u32> },
    /// Bind the output, and request its status object if the manager is there.
    BindOutput { version: u32, with_status: bool },
}

pub enum RegistryActionView {
    Nothing,
    BindManager { version: u32, outputs: Seq<u32> },
    BindOutput { version: u32, with_status: bool },
}

impl View for RegistryAction {
    type V = RegistryActionView;

    open spec fn view(&self) -> RegistryActionView {
        match self {
            RegistryAction::Nothing => RegistryActionView::Nothing,
            RegistryAction::BindManager { version, outputs } => RegistryActionView::BindManager {
                version: *version,
                outputs: outputs@,
            },
            RegistryAction::BindOutput { version, with_status } => RegistryActionView::BindOutput {
                version: *version,
                with_status: *with_status,
            },
        }
    }
}

pub open spec fn at_most(a: u32, b: u32) -> u32 {
    if a <= b {
        a
    } else {
        b
    }
}

/// The outputs after the status objects of some were requested.
pub open spec fn all_bound(outputs: Map<u32, (Seq<char>, bool)>, ids: Seq<u32>) -> Map<
    u32,
    (Seq<char>, bool),
>
    decreases ids.len(),
{
    if ids.len() == 0 {
        outputs
    } else {
        all_bound(outputs, ids.drop_last()).insert(ids.last(), (placeholder(ids.last()), true))
    }
}

/// The compositor after a global was announced.
pub open spec fn after_global(c: CompositorView, id: u32, interface: Seq<char>) -> CompositorView {
    if interface == "zdwl_ipc_manager_v2"@ {
        CompositorView {
            has_manager: true,
            outputs: all_bound(c.outputs, c.pending_outputs),
            pending_outputs: Seq::empty(),
            ..c
        }
    } else if interface == "wl_output"@ {
        CompositorView {
            outputs: c.outputs.insert(id, (placeholder(id), c.has_manager)),
            pending_outputs: if c.has_manager {
                c.pending_outputs
            } else {
                c.pending_outputs.push(id)
            },
            ..c
        }
    } else {
        c
    }
}

/// What an announced global asks for.
pub open spec fn global_action(
    c: CompositorView,
    interface: Seq<char>,
    version: u32,
) -> RegistryActionView {
    if interface == "zdwl_ipc_manager_v2"@ {
        RegistryActionView::BindManager { version: at_most(version, 2), outputs: c.pending_outputs }
    } else if interface == "wl_output"@ {
        RegistryActionView::BindOutput {
            version: at_most(version, 4),
            with_status: c.has_manager,
        }
    } else {
        RegistryActionView::Nothing
    }
}

/// The compositor after a global was withdrawn.
pub open spec fn after_global_remove(c: CompositorView, id: u32) -> CompositorView {
    if c.outputs.dom().contains(id) {
        CompositorView {
            outputs: c.outputs.remove(id),
            states: c.states.remove(c.outputs[id].0),
            ..c
        }
    } else {
        c
    }
}

/// A map after the value under one name was moved to another.
pub open spec fn moved(
    m: Map<Seq<char>, OutputView>,
    from: Option<Seq<char>>,
    to: Seq<char>,
) -> Map<Seq<char>, OutputView> {
    match from {
        Some(from) => if from != to && m.dom().contains(from) {
            m.remove(from).insert(to, m[from])
        } else {
            m
        },
        None => m,
    }
}

/// An output of which only the number of tags is known.
pub open spec fn fresh_output(tag_count: u32) -> OutputView {
    OutputView { tag_info: Seq::new(tag_count as nat, |i: int| empty_tag()), ..blank_output() }
}

/// The status object of an output has still to be requested.
pub open spec fn needs_status(c: CompositorView, id: u32) -> bool {
    c.has_manager && c.outputs.dom().contains(id) && !c.outputs[id].1
}

/// The compositor after an output told its name. What was known under its old
/// name moves to the new one. The first output to be named has the focus.
pub open spec fn after_name(c: CompositorView, id: u32, name: Seq<char>) -> CompositorView {
    let old_name = if c.outputs.dom().contains(id) {
        Some(c.outputs[id].0)
    } else {
        None
    };
    let states = moved(c.states, old_name, name);
    CompositorView {
        outputs: if c.outputs.dom().contains(id) {
            c.outputs.insert(id, (name, c.outputs[id].1 || c.has_manager))
        } else {
            c.outputs
        },
        pending: moved(c.pending, old_name, name),
        states: if states.dom().contains(name) {
            states
        } else {
            states.insert(name, fresh_output(c.tag_count))
        },
        focused_output: if c.focused_output.len() == 0 {
            name
        } else {
            c.focused_output
        },
        focused_output_id: if c.focused_output.len() == 0 {
            Some(id)
        } else {
            c.focused_output_id
        },
        ..c
    }
}

/// A list of tags, cut or filled up to a length.
pub open spec fn resized(tags: Seq<TagInfo>, n: nat) -> Seq<TagInfo> {
    Seq::new(
        n,
        |i: int|
            if i < tags.len() {
                tags[i]
            } else {
                empty_tag()
            },
    )
}

pub open spec fn resized_output(o: OutputView, n: nat) -> OutputView {
    OutputView { tag_info: resized(o.tag_info, n), ..o }
}

/// The compositor after the number of tags was announced.
pub open spec fn after_tags(c: CompositorView, amount: u32) -> CompositorView {
    CompositorView {
        tag_count: amount,
        states: c.states.map_values(|o: OutputView| resized_output(o, amount as nat)),
        ..c
    }
}

/// The compositor after a layout was announced.
pub open spec fn after_layout(c: CompositorView, name: Seq<char>) -> CompositorView {
    CompositorView { layouts: c.layouts.push(name), ..c }
}

/// What a status object reports.
#[derive(Debug)]
pub enum OutputEvent {
    Active(u32),
    Tag { tag: u32, state: u32, clients: u32, focused: u32 },
    Layout(u32),
    Title(String),
    Appid(String),
    Fullscreen(u32),
    Floating(u32),
    LayoutSymbol(String),
    ToggleVisibility,
    Frame,
    X(i32),
    Y(i32),
    Width(i32),
    Height(i32),
    LastLayer(String),
    KbLayout(String),
    Keymode(String),
    /// The scale in hundredths, and as a number.
    Scalefactor(u32, Number),
}

/// An output after one report other than the end of a frame.
pub open spec fn reported(o: OutputView, event: OutputEvent) -> OutputView {
    match event {
        OutputEvent::Active(active) => OutputView { active: active != 0, ..o },
        OutputEvent::Tag { tag, state, clients, focused } => if tag < o.tag_info.len() {
            let tags = o.tag_info.update(
                tag as int,
                TagInfo { state, clients, focused: focused != 0 },
            );
            OutputView { tag_info: tags, active_tags: mask_of(active_flags(tags)), ..o }
        } else {
            o
        },
        OutputEvent::Layout(layout) => OutputView { layout_idx: layout, ..o },
        OutputEvent::Title(title) => OutputView { title: title@, ..o },
        OutputEvent::Appid(appid) => OutputView { appid: appid@, ..o },
        OutputEvent::Fullscreen(b) => OutputView { fullscreen: b != 0, ..o },
        OutputEvent::Floating(b) => OutputView { floating: b != 0, ..o },
        OutputEvent::LayoutSymbol(symbol) => OutputView { layout_symbol: symbol@, ..o },
        OutputEvent::ToggleVisibility => o,
        OutputEvent::Frame => o,
        OutputEvent::X(x) => OutputView { x, ..o },
        OutputEvent::Y(y) => OutputView { y, ..o },
        OutputEvent::Width(width) => OutputView { width, ..o },
        OutputEvent::Height(height) => OutputView { height, ..o },
        OutputEvent::LastLayer(layer) => OutputView { last_layer: layer@, ..o },
        OutputEvent::KbLayout(layout) => OutputView { kb_layout: layout@, ..o },
        OutputEvent::Keymode(keymode) => OutputView { keymode: keymode@, ..o },
        OutputEvent::Scalefactor(hundredths, scale) => OutputView {
            scale_factor: hundredths,
            scale: scale@,
            ..o
        },
    }
}

/// The events so far, and one more if something changed and its name is
/// subscribed.
pub open spec fn emitted(
    events: Seq<EventView>,
    subscriptions: Set<Seq<char>>,
    changed: bool,
    name: Seq<char>,
    prev: Map<Seq<char>, JsonView>,
    curr: Map<Seq<char>, JsonView>,
) -> Seq<EventView> {
    if changed && subscriptions.contains(name) {
        events.push(EventView { name, prev: Some(prev), curr: Some(curr) })
    } else {
        events
    }
}

pub open spec fn tag_fields(o: OutputView, output: Seq<char>) -> Map<Seq<char>, JsonView> {
    two_fields("tags"@, int_json(o.active_tags as int), "output"@, text_json(output))
}

pub open spec fn layout_fields(o: OutputView, output: Seq<char>, layouts: Seq<Seq<char>>) -> Map<
    Seq<char>,
    JsonView,
> {
    two_fields(
        "layout"@,
        int_json(o.layout_idx as int),
        "layout_name"@,
        text_json(layout_name_of(layout_label_of(o, layouts))),
    ).insert("layout_symbol"@, text_json(o.layout_symbol)).insert("output"@, text_json(output))
}

pub open spec fn window_fields(o: OutputView) -> Map<Seq<char>, JsonView> {
    two_fields("title"@, text_json(o.title), "appid"@, text_json(o.appid))
}

pub open spec fn window_state_fields(o: OutputView, output: Seq<char>) -> Map<Seq<char>, JsonView> {
    two_fields(
        "fullscreen"@,
        JsonView::Bool(o.fullscreen),
        "floating"@,
        JsonView::Bool(o.floating),
    ).insert("output"@, text_json(output))
}

pub open spec fn geometry_fields(o: OutputView, output: Seq<char>) -> Map<Seq<char>, JsonView> {
    two_fields("x"@, int_json(o.x as int), "y"@, int_json(o.y as int)).insert(
        "width"@,
        int_json(o.width as int),
    ).insert("height"@, int_json(o.height as int)).insert("output"@, text_json(output))
}

pub open spec fn text_fields(key: Seq<char>, value: Seq<char>, output: Seq<char>) -> Map<
    Seq<char>,
    JsonView,
> {
    two_fields(key, text_json(value), "output"@, text_json(output))
}

pub open spec fn scale_fields(o: OutputView, output: Seq<char>) -> Map<Seq<char>, JsonView> {
    two_fields("scale_factor"@, JsonView::Number(o.scale), "output"@, text_json(output))
}

/// The events that tell how an output changed over a frame, in this order.
pub open spec fn frame_events(
    prev: OutputView,
    curr: OutputView,
    output: Seq<char>,
    layouts: Seq<Seq<char>>,
    subs: Set<Seq<char>>,
) -> Seq<EventView> {
    let e0 = Seq::<EventView>::empty();
    let e1 = emitted(
        e0,
        subs,
        prev.active_tags != curr.active_tags,
        "tag_change"@,
        tag_fields(prev, output),
        tag_fields(curr, output),
    );
    let e2 = emitted(
        e1,
        subs,
        prev.layout_idx != curr.layout_idx || prev.layout_symbol != curr.layout_symbol,
        "layout_change"@,
        layout_fields(prev, output, layouts),
        layout_fields(curr, output, layouts),
    );
    let e3 = emitted(
        e2,
        subs,
        prev.title != curr.title || prev.appid != curr.appid,
        "focus_change"@,
        window_fields(prev),
        window_fields(curr),
    );
    let e4 = emitted(
        e3,
        subs,
        prev.fullscreen != curr.fullscreen || prev.floating != curr.floating,
        "window_state_change"@,
        window_state_fields(prev, output),
        window_state_fields(curr, output),
    );
    let e5 = emitted(
        e4,
        subs,
        prev.x != curr.x || prev.y != curr.y || prev.width != curr.width || prev.height
            != curr.height,
        "geometry_change"@,
        geometry_fields(prev, output),
        geometry_fields(curr, output),
    );
    let e6 = emitted(
        e5,
        subs,
        prev.last_layer != curr.last_layer,
        "layer_change"@,
        text_fields("last_layer"@, prev.last_layer, output),
        text_fields("last_layer"@, curr.last_layer, output),
    );
    let e7 = emitted(
        e6,
        subs,
        prev.kb_layout != curr.kb_layout,
        "keyboard_layout_change"@,
        text_fields("kb_layout"@, prev.kb_layout, output),
        text_fields("kb_layout"@, curr.kb_layout, output),
    );
    let e8 = emitted(
        e7,
        subs,
        prev.keymode != curr.keymode,
        "keymode_change"@,
        text_fields("keymode"@, prev.keymode, output),
        text_fields("keymode"@, curr.keymode, output),
    );
    emitted(
        e8,
        subs,
        prev.scale_factor != curr.scale_factor,
        "scale_factor_change"@,
        scale_fields(prev, output),
        scale_fields(curr, output),
    )
}

/// The state of an output in the frame that is being reported: what was reported
/// so far, else what it was before, else a blank.
pub open spec fn in_progress(c: CompositorView, output: Seq<char>) -> OutputView {
    if c.pending.dom().contains(output) {
        c.pending[output]
    } else if c.states.dom().contains(output) {
        c.states[output]
    } else {
        blank_output()
    }
}

/// A tag of an output that is reported as shown has a bit in a mask.
pub open spec fn tag_fits(o: OutputView, event: OutputEvent) -> bool {
    match event {
        OutputEvent::Tag { tag, state, .. } => state == 1 && tag < o.tag_info.len() ==> tag
            < MAX_TAGS,
        _ => true,
    }
}

/// A report can be taken: its output is not known, or a tag that is reported as
/// shown has a bit in a mask.
pub open spec fn report_fits_in(c: CompositorView, id: u32, event: OutputEvent) -> bool {
    c.outputs.dom().contains(id) ==> tag_fits(in_progress(c, c.outputs[id].0), event)
}

/// The fields that tell which output has the focus.
pub open spec fn focus_state(c: CompositorView, output: Seq<char>) -> Map<Seq<char>, JsonView> {
    if c.states.dom().contains(output) {
        focus_fields(c.states[output], output)
    } else {
        one_field("output"@, text_json(output))
    }
}

/// The compositor after a report of a status object. Reports of an output that
/// is not known are ignored.
pub open spec fn after_report(c: CompositorView, id: u32, event: OutputEvent) -> CompositorView {
    if !c.outputs.dom().contains(id) {
        c
    } else {
        let output = c.outputs[id].0;
        let state = in_progress(c, output);
        match event {
            OutputEvent::Frame => CompositorView {
                pending: c.pending.remove(output),
                states: c.states.insert(output, state),
                ..c
            },
            OutputEvent::Active(active) => CompositorView {
                pending: c.pending.insert(output, reported(state, event)),
                focused_output_id: if active != 0 {
                    Some(id)
                } else {
                    c.focused_output_id
                },
                focused_output: if active != 0 {
                    output
                } else {
                    c.focused_output
                },
                ..c
            },
            _ => CompositorView {
                pending: c.pending.insert(output, reported(state, event)),
                ..c
            },
        }
    }
}

/// The events that a report brings.
pub open spec fn report_events(c: CompositorView, id: u32, event: OutputEvent) -> Seq<EventView> {
    if !c.outputs.dom().contains(id) {
        Seq::empty()
    } else {
        let output = c.outputs[id].0;
        match event {
            OutputEvent::Frame => if c.states.dom().contains(output) {
                frame_events(
                    c.states[output],
                    in_progress(c, output),
                    output,
                    c.layouts,
                    c.subscriptions,
                )
            } else {
                Seq::empty()
            },
            OutputEvent::Active(active) => emitted(
                Seq::empty(),
                c.subscriptions,
                active != 0 && c.focused_output != output,
                "output_focus"@,
                focus_state(c, c.focused_output),
                focus_state(c, output),
            ),
            _ => Seq::empty(),
        }
    }
}

/// The models of a sequence of events.
pub open spec fn events_view(events: Seq<RawEvent>) -> Seq<EventView> {
    Seq::new(events.len(), |i: int| events[i]@)
}

/// Adds an event if something changed and its name is subscribed.
fn emit(
    events: &mut Vec<RawEvent>,
    subscriptions: &NameSet,
    changed: bool,
    name: &str,
    prev: StateMap,
    curr: StateMap,
)
    ensures
        events_view(final(events)@) == emitted(
            events_view(old(events)@),
            subscriptions@,
            changed,
            name@,
            prev@,
            curr@,
        ),
{
    let ghost before = events@;
    if changed && subscriptions.contains(name) {
        let event = RawEvent::new(name).with_prev_state(prev).with_curr_state(curr);
        events.push(event);
        assert(events_view(events@) =~= events_view(before).push(event@));
    }
}

fn unsigned(u: u32) -> (v: JsonValue)
    ensures
        v@ == int_json(u as int),
{
    JsonValue::unsigned(u as u64)
}

fn signed(i: i32) -> (v: JsonValue)
    ensures
        v@ == int_json(i as int),
{
    JsonValue::signed(i as i64)
}

fn tag_state(o: &OutputState, output: &str) -> (m: StateMap)
    ensures
        m@ == tag_fields(o@, output@),
{
    state_of_two("tags", unsigned(o.active_tags), "output", JsonValue::text(output))
}

fn layout_state(o: &OutputState, output: &str, global: &GlobalState) -> (m: StateMap)
    ensures
        m@ == layout_fields(o@, output@, texts(global.layouts@)),
{
    let name = o.layout_name(global);
    let mut m = state_of_two(
        "layout",
        unsigned(o.layout_idx),
        "layout_name",
        JsonValue::text(name.as_str()),
    );
    m.insert("layout_symbol", JsonValue::text(o.layout_symbol.as_str()));
    m.insert("output", JsonValue::text(output));
    m
}

fn window_identity(o: &OutputState) -> (m: StateMap)
    ensures
        m@ == window_fields(o@),
{
    state_of_two(
        "title",
        JsonValue::text(o.title.as_str()),
        "appid",
        JsonValue::text(o.appid.as_str()),
    )
}

fn window_state(o: &OutputState, output: &str) -> (m: StateMap)
    ensures
        m@ == window_state_fields(o@, output@),
{
    let mut m = state_of_two(
        "fullscreen",
        JsonValue::boolean(o.fullscreen),
        "floating",
        JsonValue::boolean(o.floating),
    );
    m.insert("output", JsonValue::text(output));
    m
}

fn geometry_state(o: &OutputState, output: &str) -> (m: StateMap)
    ensures
        m@ == geometry_fields(o@, output@),
{
    let mut m = state_of_two("x", signed(o.x), "y", signed(o.y));
    m.insert("width", signed(o.width));
    m.insert("height", signed(o.height));
    m.insert("output", JsonValue::text(output));
    m
}

fn text_state(key: &str, value: &str, output: &str) -> (m: StateMap)
    ensures
        m@ == text_fields(key@, value@, output@),
{
    state_of_two(key, JsonValue::text(value), "output", JsonValue::text(output))
}

fn scale_state(o: &OutputState, output: &str) -> (m: StateMap)
    ensures
        m@ == scale_fields(o@, output@),
{
    broadcast use value_view;

    state_of_two("scale_factor", JsonValue::Number(o.scale), "output", JsonValue::text(output))
}

/// The events that tell how an output changed over a frame.
fn changes(
    prev: &OutputState,
    curr: &OutputState,
    output: &str,
    global: &GlobalState,
    subs: &NameSet,
) -> (r: Vec<RawEvent>)
    ensures
        events_view(r@) == frame_events(prev@, curr@, output@, texts(global.layouts@), subs@),
{
    let mut events: Vec<RawEvent> = Vec::new();
    assert(events_view(events@) =~= Seq::empty());
    emit(
        &mut events,
        subs,
        prev.active_tags != curr.active_tags,
        "tag_change",
        tag_state(prev, output),
        tag_state(curr, output),
    );
    emit(
        &mut events,
        subs,
        prev.layout_idx != curr.layout_idx || !str_eq(
            prev.layout_symbol.as_str(),
            curr.layout_symbol.as_str(),
        ),
        "layout_change",
        layout_state(prev, output, global),
        layout_state(curr, output, global),
    );
    emit(
        &mut events,
        subs,
        !str_eq(prev.title.as_str(), curr.title.as_str()) || !str_eq(
            prev.appid.as_str(),
            curr.appid.as_str(),
        ),
        "focus_change",
        window_identity(prev),
        window_identity(curr),
    );
    emit(
        &mut events,
        subs,
        prev.fullscreen != curr.fullscreen || prev.floating != curr.floating,
        "window_state_change",
        window_state(prev, output),
        window_state(curr, output),
    );
    emit(
        &mut events,
        subs,
        prev.x != curr.x || prev.y != curr.y || prev.width != curr.width || prev.height
            != curr.height,
        "geometry_change",
        geometry_state(prev, output),
        geometry_state(curr, output),
    );
    emit(
        &mut events,
        subs,
        !str_eq(prev.last_layer.as_str(), curr.last_layer.as_str()),
        "layer_change",
        text_state("last_layer", prev.last_layer.as_str(), output),
        text_state("last_layer", curr.last_layer.as_str(), output),
    );
    emit(
        &mut events,
        subs,
        !str_eq(prev.kb_layout.as_str(), curr.kb_layout.as_str()),
        "keyboard_layout_change",
        text_state("kb_layout", prev.kb_layout.as_str(), output),
        text_state("kb_layout", curr.kb_layout.as_str(), output),
    );
    emit(
        &mut events,
        subs,
        !str_eq(prev.keymode.as_str(), curr.keymode.as_str()),
        "keymode_change",
        text_state("keymode", prev.keymode.as_str(), output),
        text_state("keymode", curr.keymode.as_str(), output),
    );
    emit(
        &mut events,
        subs,
        prev.scale_factor != curr.scale_factor,
        "scale_factor_change",
        scale_state(prev, output),
        scale_state(curr, output),
    );
    events
}

/// Puts one report into the state of an output.
fn report_into(o: &mut OutputState, event: OutputEvent)
    requires
        active_fits(old(o)@),
        active_fits(reported(old(o)@, event)),
    ensures
        final(o)@ == reported(old(o)@, event),
{
    match event {
        OutputEvent::Active(active) => {
            o.active = active != 0;
        },
        OutputEvent::Tag { tag, state, clients, focused } => {
            if (tag as usize) < o.tag_info.len() {
                o.tag_info[tag as usize] = TagInfo { state, clients, focused: focused != 0 };
                o.active_tags = o.active_mask();
            }
        },
        OutputEvent::Layout(layout) => {
            o.layout_idx = layout;
        },
        OutputEvent::Title(title) => {
            o.title = title;
        },
        OutputEvent::Appid(appid) => {
            o.appid = appid;
        },
        OutputEvent::Fullscreen(b) => {
            o.fullscreen = b != 0;
        },
        OutputEvent::Floating(b) => {
            o.floating = b != 0;
        },
        OutputEvent::LayoutSymbol(symbol) => {
            o.layout_symbol = symbol;
        },
        OutputEvent::ToggleVisibility => {},
        OutputEvent::Frame => {},
        OutputEvent::X(x) => {
            o.x = x;
        },
        OutputEvent::Y(y) => {
            o.y = y;
        },
        OutputEvent::Width(width) => {
            o.width = width;
        },
        OutputEvent::Height(height) => {
            o.height = height;
        },
        OutputEvent::LastLayer(layer) => {
            o.last_layer = layer;
        },
        OutputEvent::KbLayout(layout) => {
            o.kb_layout = layout;
        },
        OutputEvent::Keymode(keymode) => {
            o.keymode = keymode;
        },
        OutputEvent::Scalefactor(hundredths, scale) => {
            o.scale_factor = hundredths;
            o.scale = scale;
        },
    }
}

/// Cuts or fills up the tags of an output.
fn resize_tags(o: &OutputState, n: usize) -> (r: OutputState)
    ensures
        r@ == resized_output(o@, n as nat),
{
    let mut r = o.clone();
    let mut tags: Vec<TagInfo> = Vec::new();
    for i in 0..n
        invariant
            tags@ == resized(o.tag_info@, n as nat).take(i as int),
    {
        let ghost all = resized(o.tag_info@, n as nat);
        let tag = if i < o.tag_info.len() {
            o.tag_info[i]
        } else {
            TagInfo::default()
        };
        tags.push(tag);
        assert(all.take(i + 1) =~= all.take(i as int).push(tag));
    }
    assert(tags@ =~= resized(o.tag_info@, n as nat));
    r.tag_info = tags;
    r
}

spec fn resized_list(listed: Seq<(Seq<char>, OutputView)>, n: nat) -> Seq<(Seq<char>, OutputView)> {
    Seq::new(listed.len(), |i: int| (listed[i].0, resized_output(listed[i].1, n)))
}

proof fn lemma_resized_list(listed: Seq<(Seq<char>, OutputView)>, n: nat)
    ensures
        named_map(resized_list(listed, n)) == named_map(listed).map_values(
            |o: OutputView| resized_output(o, n),
        ),
    decreases listed.len(),
{
    let after = resized_list(listed, n);
    let f = |o: OutputView| resized_output(o, n);
    if listed.len() == 0 {
        assert(named_map(after) =~= named_map(listed).map_values(f));
    } else {
        assert(after.drop_last() =~= resized_list(listed.drop_last(), n));
        lemma_resized_list(listed.drop_last(), n);
        assert(named_map(after) =~= named_map(listed).map_values(f));
    }
}

fn resize_all(states: &Keyed<OutputState>, n: usize) -> (r: Keyed<OutputState>)
    ensures
        r@ == states@.map_values(|o: OutputView| resized_output(o, n as nat)),
{
    let mut r: Keyed<OutputState> = Keyed::new();
    let len: usize = states.len();
    let ghost after = resized_list(states.listed(), n as nat);
    for i in 0..len
        invariant
            len == states.listed().len(),
            after == resized_list(states.listed(), n as nat),
            r@ == named_map(after.take(i as int)),
    {
        let (name, state) = states.entry(i);
        r.insert(name, resize_tags(state, n));
        assert(after.take(i + 1).drop_last() =~= after.take(i as int));
    }
    proof {
        assert(after.take(len as int) =~= after);
        lemma_resized_list(states.listed(), n as nat);
    }
    r
}

/// What is shown still fits after a report that fits, and after the number of
/// tags changed.
proof fn lemma_active_fits(o: OutputView, event: OutputEvent, n: nat)
    requires
        active_fits(o),
    ensures
        active_fits(resized_output(o, n)),
        tag_fits(o, event) ==> active_fits(reported(o, event)),
{
    let flags = active_flags(o.tag_info);
    let cut = active_flags(resized(o.tag_info, n));
    assert forall|i: int| MAX_TAGS <= i < cut.len() implies !#[trigger] cut[i] by {
        if i < o.tag_info.len() {
            assert(!flags[i]);
        }
    }
    let after = active_flags(reported(o, event).tag_info);
    if tag_fits(o, event) {
        assert forall|i: int| MAX_TAGS <= i < after.len() implies !#[trigger] after[i] by {
            assert(!flags[i]);
        }
    }
}

fn placeholder_name(id: u32) -> (r: String)
    ensures
        r@ == placeholder(id),
{
    joined("output-", u64_to_text(id as u64).as_str())
}

fn smaller(a: u32, b: u32) -> (r: u32)
    ensures
        r == at_most(a, b),
{
    if a <= b {
        a
    } else {
        b
    }
}

impl Compositor {
    /// A compositor of which nothing is known, with the events to report.
    pub fn new(subscriptions: NameSet) -> (c: Compositor)
        ensures
            c@ == nothing_announced(subscriptions@),
            well_formed(c@),
    {
        let c = Compositor {
            has_manager: false,
            outputs: HashMap::new(),
            pending_outputs: Vec::new(),
            global: GlobalState { tag_count: 0, layouts: Vec::new() },
            states: Keyed::new(),
            focused_output: "".to_owned(),
            pending: Keyed::new(),
            subscriptions,
            focused_output_id: None,
        };
        assert(c@.outputs =~= Map::empty());
        assert(c@.layouts =~= Seq::empty());
        c
    }

    /// Requests the status objects of all outputs that wait for the manager.
    fn bind_pending_outputs(&mut self) -> (ids: Vec<u32>)
        ensures
            ids@ == old(self)@.pending_outputs,
            final(self)@ == (CompositorView {
                outputs: all_bound(old(self)@.outputs, old(self)@.pending_outputs),
                pending_outputs: Seq::empty(),
                ..old(self)@
            }),
    {
        let mut ids: Vec<u32> = Vec::new();
        std::mem::swap(&mut ids, &mut self.pending_outputs);
        let ghost start = self@.outputs;
        for i in 0..ids.len()
            invariant
                start == old(self)@.outputs,
                self@ == (CompositorView {
                    outputs: all_bound(start, ids@.take(i as int)),
                    pending_outputs: Seq::empty(),
                    ..old(self)@
                }),
        {
            let ghost before = self@;
            let id: u32 = ids[i];
            let known = KnownOutput { name: placeholder_name(id), bound: true };
            self.outputs.insert(id, known);
            assert(ids@.take(i + 1).drop_last() =~= ids@.take(i as int));
            assert(self@.outputs =~= before.outputs.insert(id, (placeholder(id), true)));
        }
        assert(ids@.take(ids@.len() as int) =~= ids@);
        ids
    }

    /// A global was announced.
    pub fn global(&mut self, id: u32, interface: &str, version: u32) -> (r: RegistryAction)
        requires
            well_formed(old(self)@),
        ensures
            well_formed(final(self)@),
            final(self)@ == after_global(old(self)@, id, interface@),
            r@ == global_action(old(self)@, interface@, version),
    {
        if str_eq(interface, "zdwl_ipc_manager_v2") {
            self.has_manager = true;
            let outputs = self.bind_pending_outputs();
            RegistryAction::BindManager { version: smaller(version, 2), outputs }
        } else if str_eq(interface, "wl_output") {
            let ghost before = self@;
            let known = KnownOutput { name: placeholder_name(id), bound: self.has_manager };
            self.outputs.insert(id, known);
            assert(self@.outputs =~= before.outputs.insert(id, (placeholder(id), before.has_manager)));
            if !self.has_manager {
                self.pending_outputs.push(id);
            }
            RegistryAction::BindOutput {
                version: smaller(version, 4),
                with_status: self.has_manager,
            }
        } else {
            RegistryAction::Nothing
        }
    }

    /// A global was withdrawn.
    pub fn global_remove(&mut self, id: u32)
        requires
            well_formed(old(self)@),
        ensures
            well_formed(final(self)@),
            final(self)@ == after_global_remove(old(self)@, id),
    {
        let ghost before = self@;
        match self.outputs.remove(&id) {
            Some(known) => {
                let _ = self.states.remove(known.name.as_str());
                assert(self@.outputs =~= before.outputs.remove(id));
            },
            None => {
                assert(self@.outputs =~= before.outputs);
            },
        }
    }

    /// An output told its name. The result says whether its status object has to
    /// be requested now.
    pub fn output_name(&mut self, id: u32, name: &str) -> (bind: bool)
        requires
            well_formed(old(self)@),
        ensures
            well_formed(final(self)@),
            final(self)@ == after_name(old(self)@, id, name@),
            bind == needs_status(old(self)@, id),
    {
        let ghost before = self@;
        let mut bind = false;
        let old_name: Option<String> = match self.outputs.get(&id) {
            Some(known) => {
                bind = self.has_manager && !known.bound;
                Some(known.name.clone())
            },
            None => None,
        };
        let bound = match self.outputs.get(&id) {
            Some(known) => known.bound || self.has_manager,
            None => false,
        };
        match &old_name {
            Some(from) => {
                self.outputs.insert(id, KnownOutput { name: name.to_owned(), bound });
                assert(self@.outputs =~= before.outputs.insert(id, (name@, bound)));
                if !str_eq(from.as_str(), name) {
                    match self.pending.remove(from.as_str()) {
                        Some(state) => {
                            self.pending.insert(name, state);
                        },
                        None => {
                            assert(self.pending@ =~= before.pending);
                        },
                    }
                    match self.states.remove(from.as_str()) {
                        Some(state) => {
                            self.states.insert(name, state);
                        },
                        None => {
                            assert(self.states@ =~= before.states);
                        },
                    }
                }
            },
            None => {},
        }
        if self.states.get(name).is_none() {
            let n: usize = self.global.tag_count as usize;
            let fresh = resize_tags(&OutputState::default(), n);
            assert(fresh@.tag_info =~= fresh_output(before.tag_count).tag_info);
            self.states.insert(name, fresh);
        }
        if self.focused_output.as_str().is_empty() {
            self.focused_output = name.to_owned();
            self.focused_output_id = Some(id);
        }
        bind
    }

    /// The number of tags was announced.
    pub fn tags(&mut self, amount: u32)
        requires
            well_formed(old(self)@),
        ensures
            well_formed(final(self)@),
            final(self)@ == after_tags(old(self)@, amount),
    {
        let ghost before = self@;
        self.global.tag_count = amount;
        self.states = resize_all(&self.states, amount as usize);
        assert forall|k: Seq<char>| #[trigger] self@.states.dom().contains(k) implies active_fits(
            self@.states[k],
        ) by {
            assert(before.states.dom().contains(k));
            lemma_active_fits(before.states[k], OutputEvent::Frame, amount as nat);
        }
    }

    /// A layout was announced.
    pub fn layout(&mut self, name: &str)
        requires
            well_formed(old(self)@),
        ensures
            well_formed(final(self)@),
            final(self)@ == after_layout(old(self)@, name@),
    {
        let ghost before = self@;
        self.global.layouts.push(name.to_owned());
        assert(self@.layouts =~= before.layouts.push(name@));
    }

    fn focus_of(&self, output: &str) -> (m: StateMap)
        ensures
            m@ == focus_state(self@, output@),
    {
        match self.states.get(output) {
            Some(state) => state.focus_payload(output),
            None => state_of_one("output", JsonValue::text(output)),
        }
    }

    /// Whether a report can be taken: a tag that is shown needs a bit in a mask.
    pub fn report_fits(&self, id: u32, event: &OutputEvent) -> (r: bool)
        ensures
            r == report_fits_in(self@, id, *event),
    {
        match event {
            OutputEvent::Tag { tag, state, .. } => {
                if *state != 1 || (*tag as usize) < MAX_TAGS {
                    return true;
                }
                let output: &str = match self.outputs.get(&id) {
                    Some(known) => known.name.as_str(),
                    None => {
                        return true;
                    },
                };
                assert(self@.outputs.dom().contains(id) && self@.outputs[id].0 == output@);
                let tags: usize = match self.pending.get(output) {
                    Some(state) => state.tag_info.len(),
                    None => match self.states.get(output) {
                        Some(state) => state.tag_info.len(),
                        None => 0,
                    },
                };
                assert(tags == in_progress(self@, output@).tag_info.len());
                (*tag as usize) >= tags
            },
            _ => true,
        }
    }

    /// A status object reported something. The result is what to tell about it.
    pub fn report(&mut self, id: u32, event: OutputEvent) -> (r: Vec<RawEvent>)
        requires
            well_formed(old(self)@),
            report_fits_in(old(self)@, id, event),
        ensures
            well_formed(final(self)@),
            final(self)@ == after_report(old(self)@, id, event),
            events_view(r@) == report_events(old(self)@, id, event),
    {
        let ghost before = self@;
        let mut events: Vec<RawEvent> = Vec::new();
        assert(events_view(events@) =~= Seq::empty());
        let output: String = match self.outputs.get(&id) {
            Some(known) => known.name.clone(),
            None => {
                return events;
            },
        };
        assert(before.outputs.dom().contains(id) && before.outputs[id].0 == output@);
        let mut state: OutputState = match self.pending.remove(output.as_str()) {
            Some(state) => state,
            None => match self.states.get(output.as_str()) {
                Some(state) => state.clone(),
                None => OutputState::default(),
            },
        };
        assert(state@ == in_progress(before, output@));
        proof {
            lemma_active_fits(state@, event, 0);
        }
        match event {
            OutputEvent::Frame => {
                match self.states.get(output.as_str()) {
                    Some(prev) => {
                        events = changes(
                            prev,
                            &state,
                            output.as_str(),
                            &self.global,
                            &self.subscriptions,
                        );
                    },
                    None => {},
                }
                self.states.insert(output.as_str(), state);
            },
            OutputEvent::Active(active) => {
                state.active = active != 0;
                self.pending.insert(output.as_str(), state);
                assert(self.pending@ =~= before.pending.insert(output@, state@));
                if active != 0 {
                    self.focused_output_id = Some(id);
                    if !str_eq(self.focused_output.as_str(), output.as_str()) {
                        let prev = self.focus_of(self.focused_output.as_str());
                        let curr = self.focus_of(output.as_str());
                        self.focused_output = output;
                        emit(&mut events, &self.subscriptions, true, "output_focus", prev, curr);
                    }
                }
            },
            other => {
                report_into(&mut state, other);
                self.pending.insert(output.as_str(), state);
                assert(self.pending@ =~= before.pending.insert(output@, state@));
            },
        }
        events
    }
}

/// The names of the layouts, as they are listed.
pub open spec fn layouts_listing(layouts: Seq<Seq<char>>) -> JsonView {
    JsonView::Array(Seq::new(layouts.len(), |i: int| text_json(layout_name_of(layouts[i]))))
}

/// What a key reads of the output that has the focus. The list of all outputs is
/// not among these keys.
pub open spec fn output_value(c: CompositorView, o: OutputView, key: Seq<char>) -> Result<
    JsonView,
    Seq<char>,
> {
    if key == "layout"@ {
        Ok(int_json(o.layout_idx as int))
    } else if key == "layout_name"@ {
        Ok(text_json(layout_name_of(layout_label_of(o, c.layouts))))
    } else if key == "layout_symbol"@ {
        Ok(text_json(o.layout_symbol))
    } else if key == "layouts"@ {
        Ok(layouts_listing(c.layouts))
    } else if key == "tags"@ {
        Ok(int_json(o.active_tags as int))
    } else if key == "client_tags"@ {
        Ok(int_json(mask_of(focused_flags(o.tag_info)) as int))
    } else if key == "tag_count"@ {
        Ok(int_json(c.tag_count as int))
    } else if key == "tag_info"@ {
        Ok(tags_listing(o.tag_info))
    } else if key == "occupied_tags"@ {
        Ok(int_json(mask_of(occupied_flags(o.tag_info)) as int))
    } else if key == "urgent_tags"@ {
        Ok(int_json(mask_of(urgent_flags(o.tag_info)) as int))
    } else if key == "client_count"@ {
        Ok(int_json(clients_total(o.tag_info) as int))
    } else if key == "title"@ {
        Ok(text_json(o.title))
    } else if key == "appid"@ {
        Ok(text_json(o.appid))
    } else if key == "output"@ {
        Ok(text_json(c.focused_output))
    } else if key == "fullscreen"@ {
        Ok(JsonView::Bool(o.fullscreen))
    } else if key == "floating"@ {
        Ok(JsonView::Bool(o.floating))
    } else if key == "geometry"@ {
        Ok(geometry_of(o))
    } else if key == "x"@ {
        Ok(int_json(o.x as int))
    } else if key == "y"@ {
        Ok(int_json(o.y as int))
    } else if key == "width"@ {
        Ok(int_json(o.width as int))
    } else if key == "height"@ {
        Ok(int_json(o.height as int))
    } else if key == "last_layer"@ {
        Ok(text_json(o.last_layer))
    } else if key == "kb_layout"@ {
        Ok(text_json(o.kb_layout))
    } else if key == "keymode"@ {
        Ok(text_json(o.keymode))
    } else if key == "scale_factor"@ {
        Ok(JsonView::Number(o.scale))
    } else {
        Err("Unknown key: "@ + key)
    }
}

/// The strings of an array.
pub open spec fn text_array(names: Seq<Seq<char>>) -> JsonView {
    JsonView::Array(Seq::new(names.len(), |i: int| text_json(names[i])))
}

/// What reading a key gives. The names of the outputs come in ascending order,
/// each once.
pub open spec fn get_gives(c: CompositorView, key: Seq<char>, r: Result<JsonView, Seq<char>>) -> bool {
    if !c.states.dom().contains(c.focused_output) {
        r == Err::<JsonView, Seq<char>>("No focused output"@)
    } else if key == "outputs"@ {
        exists|names: Seq<Seq<char>>|
            ascending(names) && names.to_set() == c.states.dom() && r == Ok::<JsonView, Seq<char>>(
                #[trigger] text_array(names),
            )
    } else {
        r == output_value(c, c.states[c.focused_output], key)
    }
}

/// What a key reads of an output is a number that can be reported: every tag in
/// a mask has a bit, and a count is not too large.
pub open spec fn value_fits(o: OutputView, key: Seq<char>) -> bool {
    if key == "client_tags"@ {
        fits_mask(focused_flags(o.tag_info))
    } else if key == "occupied_tags"@ {
        fits_mask(occupied_flags(o.tag_info))
    } else if key == "urgent_tags"@ {
        fits_mask(urgent_flags(o.tag_info))
    } else if key == "client_count"@ {
        clients_total(o.tag_info) <= u32::MAX
    } else {
        true
    }
}

/// What a key reads of the focused output can be reported.
pub open spec fn key_fits_in(c: CompositorView, key: Seq<char>) -> bool {
    c.states.dom().contains(c.focused_output) ==> value_fits(c.states[c.focused_output], key)
}

/// What a compositor is asked to do with the focused output.
#[derive(Debug, Clone, Copy, PartialEq, Eq, Structural)]
pub enum MangoCommand {
    SetTags { tagmask: u32, toggle: bool },
    SetClientTags { and_tags: u32, xor_tags: u32 },
    SetLayout { index: u32 },
}

/// The index of the first layout that a request names.
pub open spec fn layout_index(layouts: Seq<Seq<char>>, requested: Seq<char>, from: int) -> Option<int>
    decreases layouts.len() - from,
{
    if from < 0 || from >= layouts.len() {
        None
    } else if layout_fits(layouts[from], requested) {
        Some(from)
    } else {
        layout_index(layouts, requested, from + 1)
    }
}

/// The command that sets a key to a value, or why there is none. A layout number
/// counts modulo the size of the number that is sent.
pub open spec fn command_for(layouts: Seq<Seq<char>>, key: Seq<char>, value: JsonView) -> Result<
    MangoCommand,
    Seq<char>,
> {
    if key == "tags"@ {
        match tags_of(value) {
            Ok((tagmask, toggle)) => Ok(MangoCommand::SetTags { tagmask, toggle }),
            Err(e) => Err(e),
        }
    } else if key == "client_tags"@ {
        match client_tags_of(value) {
            Ok((and_tags, xor_tags)) => Ok(MangoCommand::SetClientTags { and_tags, xor_tags }),
            Err(e) => Err(e),
        }
    } else if key == "layout"@ {
        match json_as_u64(value) {
            Some(index) => Ok(
                MangoCommand::SetLayout { index: (index as int % 0x1_0000_0000) as u32 },
            ),
            None => Err("layout must be a number"@),
        }
    } else if key == "layout_name"@ {
        match json_as_str(value) {
            Some(name) => match layout_index(layouts, name, 0) {
                Some(index) => Ok(
                    MangoCommand::SetLayout { index: (index % 0x1_0000_0000) as u32 },
                ),
                None => Err("Layout '"@ + name + "' not found"@),
            },
            None => Err("layout_name must be a string"@),
        }
    } else {
        Err("Cannot set '"@ + key + "' (read-only or unknown)"@)
    }
}

/// The output whose status object takes a command: the focused one.
pub open spec fn command_target_of(c: CompositorView) -> Result<u32, Seq<char>> {
    match c.focused_output_id {
        Some(id) => if c.outputs.dom().contains(id) && c.outputs[id].1 {
            Ok(id)
        } else {
            Err("No IPC output available for focused output"@)
        },
        None => Err("No focused output"@),
    }
}

fn low_half(n: u64) -> (r: u32)
    ensures
        r == (n as int % 0x1_0000_0000) as u32,
{
    (n % 0x1_0000_0000) as u32
}

impl Compositor {
    fn layout_names(&self) -> (r: JsonValue)
        ensures
            r@ == layouts_listing(self@.layouts),
    {
        broadcast use value_view;

        let ghost layouts = self@.layouts;
        let mut out: Vec<JsonValue> = Vec::new();
        for i in 0..self.global.layouts.len()
            invariant
                layouts == texts(self.global.layouts@),
                values_view(out@) == layouts_listing(layouts)->Array_0.take(i as int),
        {
            let ghost before = out@;
            let ghost all = layouts_listing(layouts)->Array_0;
            let name = JsonValue::text(layout_code_to_name(self.global.layouts[i].as_str()));
            out.push(name);
            assert(values_view(out@) =~= values_view(before).push(name@));
            assert(all.take(i + 1) =~= all.take(i as int).push(all[i as int]));
        }
        let ghost all = layouts_listing(layouts)->Array_0;
        assert(all.take(all.len() as int) =~= all);
        JsonValue::Array(out)
    }

    fn output_names(&self) -> (r: JsonValue)
        ensures
            exists|names: Seq<Seq<char>>|
                ascending(names) && names.to_set() == self@.states.dom() && r@
                    == #[trigger] text_array(names),
    {
        broadcast use value_view;

        let ghost listed = self.states.listed();
        let mut names: Vec<String> = Vec::new();
        let n: usize = self.states.len();
        for i in 0..n
            invariant
                n == listed.len(),
                listed == self.states.listed(),
                texts(names@) == Seq::new(i as nat, |j: int| listed[j].0),
        {
            let ghost before = names@;
            let (name, _) = self.states.entry(i);
            names.push(name.to_owned());
            assert(texts(names@) =~= texts(before).push(name@));
            assert(texts(names@) =~= Seq::new((i + 1) as nat, |j: int| listed[j].0));
        }
        let ghost given = texts(names@);
        proof {
            lemma_named_map(listed);
            assert forall|i: int, j: int|
                0 <= i < given.len() && 0 <= j < given.len() && i != j implies given[i]
                != given[j] by {
                if i < j {
                    assert(listed[i].0 != listed[j].0);
                } else {
                    assert(listed[j].0 != listed[i].0);
                }
            }
            assert(given.to_set() =~= self@.states.dom()) by {
                assert forall|k: Seq<char>| #[trigger] given.to_set().contains(
                    k,
                ) implies self@.states.dom().contains(k) by {
                    let j = choose|j: int| 0 <= j < given.len() && given[j] == k;
                    assert(named_map(listed).dom().contains(listed[j].0));
                }
                assert forall|k: Seq<char>| #[trigger] self@.states.dom().contains(
                    k,
                ) implies given.to_set().contains(k) by {
                    let j = choose|j: int| 0 <= j < listed.len() && (#[trigger] listed[j]).0 == k;
                    assert(given[j] == k);
                }
            }
        }
        let sorted = sorted_names(names);
        let ghost order = texts(sorted@);
        let mut out: Vec<JsonValue> = Vec::new();
        for i in 0..sorted.len()
            invariant
                order == texts(sorted@),
                values_view(out@) == text_array(order)->Array_0.take(i as int),
        {
            let ghost before = out@;
            let ghost all = text_array(order)->Array_0;
            let name = JsonValue::text(sorted[i].as_str());
            out.push(name);
            assert(values_view(out@) =~= values_view(before).push(name@));
            assert(all.take(i + 1) =~= all.take(i as int).push(all[i as int]));
        }
        let ghost all = text_array(order)->Array_0;
        assert(all.take(all.len() as int) =~= all);
        let r = JsonValue::Array(out);
        assert(r@ == text_array(order));
        r
    }

    /// Whether what a key reads of the focused output can be reported.
    pub fn key_fits(&self, key: &str) -> (r: bool)
        ensures
            r == key_fits_in(self@, key@),
    {
        let output = match self.states.get(self.focused_output.as_str()) {
            Some(output) => output,
            None => {
                return true;
            },
        };
        if str_eq(key, "client_tags") {
            output.focused_client_tags_fit()
        } else if str_eq(key, "occupied_tags") {
            output.occupied_tags_fit()
        } else if str_eq(key, "urgent_tags") {
            output.urgent_tags_fit()
        } else if str_eq(key, "client_count") {
            output.checked_client_count().is_some()
        } else {
            true
        }
    }

    /// Reads a key of the focused output.
    pub fn get(&self, key: &str) -> (r: Result<JsonValue, String>)
        requires
            key_fits_in(self@, key@),
        ensures
            get_gives(self@, key@, value_result(r)),
    {
        let output = match self.states.get(self.focused_output.as_str()) {
            Some(output) => output,
            None => {
                return Err("No focused output".to_owned());
            },
        };
        if str_eq(key, "outputs") {
            return Ok(self.output_names());
        }
        self.output_get(output, key)
    }

    fn output_get(&self, output: &OutputState, key: &str) -> (r: Result<JsonValue, String>)
        requires
            value_fits(output@, key@),
        ensures
            value_result(r) == output_value(self@, output@, key@),
    {
        broadcast use value_view;

        if str_eq(key, "layout") {
            Ok(unsigned(output.layout_idx))
        } else if str_eq(key, "layout_name") {
            Ok(JsonValue::text(output.layout_name(&self.global).as_str()))
        } else if str_eq(key, "layout_symbol") {
            Ok(JsonValue::text(output.layout_symbol.as_str()))
        } else if str_eq(key, "layouts") {
            Ok(self.layout_names())
        } else if str_eq(key, "tags") {
            Ok(unsigned(output.active_tags))
        } else if str_eq(key, "client_tags") {
            Ok(unsigned(output.focused_client_tags()))
        } else if str_eq(key, "tag_count") {
            Ok(unsigned(self.global.tag_count))
        } else if str_eq(key, "tag_info") {
            Ok(output.tag_info_json())
        } else if str_eq(key, "occupied_tags") {
            Ok(unsigned(output.occupied_tags()))
        } else if str_eq(key, "urgent_tags") {
            Ok(unsigned(output.urgent_tags()))
        } else if str_eq(key, "client_count") {
            Ok(unsigned(output.client_count()))
        } else if str_eq(key, "title") {
            Ok(JsonValue::text(output.title.as_str()))
        } else if str_eq(key, "appid") {
            Ok(JsonValue::text(output.appid.as_str()))
        } else if str_eq(key, "output") {
            Ok(JsonValue::text(self.focused_output.as_str()))
        } else if str_eq(key, "fullscreen") {
            Ok(JsonValue::boolean(output.fullscreen))
        } else if str_eq(key, "floating") {
            Ok(JsonValue::boolean(output.floating))
        } else if str_eq(key, "geometry") {
            Ok(output.geometry_json())
        } else if str_eq(key, "x") {
            Ok(signed(output.x))
        } else if str_eq(key, "y") {
            Ok(signed(output.y))
        } else if str_eq(key, "width") {
            Ok(signed(output.width))
        } else if str_eq(key, "height") {
            Ok(signed(output.height))
        } else if str_eq(key, "last_layer") {
            Ok(JsonValue::text(output.last_layer.as_str()))
        } else if str_eq(key, "kb_layout") {
            Ok(JsonValue::text(output.kb_layout.as_str()))
        } else if str_eq(key, "keymode") {
            Ok(JsonValue::text(output.keymode.as_str()))
        } else if str_eq(key, "scale_factor") {
            Ok(JsonValue::Number(output.scale))
        } else {
            Err(joined("Unknown key: ", key))
        }
    }

    /// The index of the first layout that a request names.
    fn find_layout(&self, requested: &str) -> (r: Option<usize>)
        ensures
            (match r {
                Some(i) => Some(i as int),
                None => None,
            }) == layout_index(self@.layouts, requested@, 0),
    {
        let ghost layouts = self@.layouts;
        for i in 0..self.global.layouts.len()
            invariant
                layouts == self@.layouts,
                layouts == texts(self.global.layouts@),
                layout_index(layouts, requested@, i as int) == layout_index(layouts, requested@, 0),
        {
            assert(layouts[i as int] == self.global.layouts@[i as int]@);
            if layout_matches(self.global.layouts[i].as_str(), requested) {
                return Some(i);
            }
        }
        None
    }

    /// The command that sets a key to a value.
    pub fn set_command(&self, key: &str, value: &JsonValue) -> (r: Result<MangoCommand, String>)
        ensures
            text_result(r) == command_for(self@.layouts, key@, value@),
    {
        if str_eq(key, "tags") {
            match parse_tags_value(value) {
                Ok((tagmask, toggle)) => Ok(MangoCommand::SetTags { tagmask, toggle }),
                Err(e) => Err(e),
            }
        } else if str_eq(key, "client_tags") {
            match parse_client_tags_value(value) {
                Ok((and_tags, xor_tags)) => Ok(MangoCommand::SetClientTags { and_tags, xor_tags }),
                Err(e) => Err(e),
            }
        } else if str_eq(key, "layout") {
            match value.as_u64() {
                Some(index) => Ok(MangoCommand::SetLayout { index: low_half(index) }),
                None => Err("layout must be a number".to_owned()),
            }
        } else if str_eq(key, "layout_name") {
            match value.as_str() {
                Some(name) => match self.find_layout(name) {
                    Some(index) => Ok(MangoCommand::SetLayout { index: low_half(index as u64) }),
                    None => Err(joined3("Layout '", name, "' not found")),
                },
                None => Err("layout_name must be a string".to_owned()),
            }
        } else {
            Err(joined3("Cannot set '", key, "' (read-only or unknown)"))
        }
    }

    /// The output whose status object takes a command.
    pub fn command_target(&self) -> (r: Result<u32, String>)
        ensures
            text_result(r) == command_target_of(self@),
    {
        match self.focused_output_id {
            Some(id) => match self.outputs.get(&id) {
                Some(known) => if known.bound {
                    Ok(id)
                } else {
                    Err("No IPC output available for focused output".to_owned())
                },
                None => Err("No IPC output available for focused output".to_owned()),
            },
            None => Err("No focused output".to_owned()),
        }
    }

    /// Whether the manager was announced, without which nothing can be done.
    pub fn check_manager(&self) -> (r: Result<(), String>)
        ensures
            text_result(r) == (if self@.has_manager {
                Ok::<(), Seq<char>>(())
            } else {
                Err("zdwl_ipc_manager_v2 not available - is this a dwl-based compositor?"@)
            }),
    {
        if self.has_manager {
            Ok(())
        } else {
            Err("zdwl_ipc_manager_v2 not available - is this a dwl-based compositor?".to_owned())
        }
    }
}

/// What a poll for events comes to.
#[derive(Debug, Clone, Copy, PartialEq, Eq, Structural)]
pub enum PollStep {
    /// Events are there: dispatch them.
    Dispatch,
    /// Nothing happened, or the poll was interrupted: go on.
    Continue,
    /// The poll failed: end the loop.
    Fail,
}

/// What to do after a poll, given its result and whether it was interrupted.
pub fn poll_step(ret: i32, interrupted: bool) -> (r: PollStep)
    ensures
        r == (if ret > 0 {
            PollStep::Dispatch
        } else if ret < 0 && !interrupted {
            PollStep::Fail
        } else {
            PollStep::Continue
        }),
{
    if ret > 0 {
        PollStep::Dispatch
    } else if ret < 0 && !interrupted {
        PollStep::Fail
    } else {
        PollStep::Continue
    }
}

/// What the MangoWC adapter declares.
pub open spec fn mango_manifest() -> Seq<CapabilityView> {
    seq![
        declared("layout"@, AccessMode::ReadWrite, "Window layout index"@),
        declared("layout_name"@, AccessMode::ReadWrite, "Window layout name"@),
        declared("layout_symbol"@, AccessMode::ReadOnly, "Dynamic window layout symbol"@),
        declared("layouts"@, AccessMode::ReadOnly, "Available layout names"@),
        declared("tags"@, AccessMode::ReadWrite, "Active tag bitmask"@),
        declared("client_tags"@, AccessMode::ReadWrite, "Focused client tag bitmask"@),
        declared("tag_count"@, AccessMode::ReadOnly, "Number of tags"@),
        declared("tag_info"@, AccessMode::ReadOnly, "Per-tag state for current output"@),
        declared("occupied_tags"@, AccessMode::ReadOnly, "Occupied tag bitmask"@),
        declared("urgent_tags"@, AccessMode::ReadOnly, "Urgent tag bitmask"@),
        declared("client_count"@, AccessMode::ReadOnly, "Number of clients on current output"@),
        declared("title"@, AccessMode::ReadOnly, "Focused window title"@),
        declared("appid"@, AccessMode::ReadOnly, "Focused window app ID"@),
        declared("output"@, AccessMode::ReadOnly, "Current output name"@),
        declared("outputs"@, AccessMode::ReadOnly, "Known output names"@),
        declared("fullscreen"@, AccessMode::ReadOnly, "Focused client fullscreen state"@),
        declared("floating"@, AccessMode::ReadOnly, "Focused client floating state"@),
        declared("geometry"@, AccessMode::ReadOnly, "Focused client geometry"@),
        declared("x"@, AccessMode::ReadOnly, "Focused client x coordinate"@),
        declared("y"@, AccessMode::ReadOnly, "Focused client y coordinate"@),
        declared("width"@, AccessMode::ReadOnly, "Focused client width"@),
        declared("height"@, AccessMode::ReadOnly, "Focused client height"@),
        declared("last_layer"@, AccessMode::ReadOnly, "Last focused layer name"@),
        declared("kb_layout"@, AccessMode::ReadOnly, "Current keyboard layout"@),
        declared("keymode"@, AccessMode::ReadOnly, "Current keybind mode"@),
        declared("scale_factor"@, AccessMode::ReadOnly, "Output scale factor"@),
    ]
}

fn read_only(name: &str, description: &str) -> (c: Capability)
    ensures
        c@ == declared(name@, AccessMode::ReadOnly, description@),
{
    Capability::read_only(name).with_description(description)
}

fn read_write(name: &str, description: &str) -> (c: Capability)
    ensures
        c@ == declared(name@, AccessMode::ReadWrite, description@),
{
    Capability::read_write(name).with_description(description)
}

/// What the MangoWC adapter supports.
pub fn manifest() -> (m: CapabilityManifest)
    ensures
        m@ == mango_manifest(),
{
    let m = CapabilityManifest::new().add(read_write("layout", "Window layout index")).add(
        read_write("layout_name", "Window layout name"),
    ).add(read_only("layout_symbol", "Dynamic window layout symbol")).add(
        read_only("layouts", "Available layout names"),
    ).add(read_write("tags", "Active tag bitmask")).add(
        read_write("client_tags", "Focused client tag bitmask"),
    ).add(read_only("tag_count", "Number of tags")).add(
        read_only("tag_info", "Per-tag state for current output"),
    ).add(read_only("occupied_tags", "Occupied tag bitmask")).add(
        read_only("urgent_tags", "Urgent tag bitmask"),
    ).add(read_only("client_count", "Number of clients on current output")).add(
        read_only("title", "Focused window title"),
    ).add(read_only("appid", "Focused window app ID")).add(
        read_only("output", "Current output name"),
    ).add(read_only("outputs", "Known output names")).add(
        read_only("fullscreen", "Focused client fullscreen state"),
    ).add(read_only("floating", "Focused client floating state")).add(
        read_only("geometry", "Focused client geometry"),
    ).add(read_only("x", "Focused client x coordinate")).add(
        read_only("y", "Focused client y coordinate"),
    ).add(read_only("width", "Focused client width")).add(
        read_only("height", "Focused client height"),
    ).add(read_only("last_layer", "Last focused layer name")).add(
        read_only("kb_layout", "Current keyboard layout"),
    ).add(read_only("keymode", "Current keybind mode")).add(
        read_only("scale_factor", "Output scale factor"),
    );
    assert(m@ =~= mango_manifest());
    m
}

/// Reports other than the end of a frame are buffered. They leave the state that
/// is reported to clients as it was, and of what is pending they touch only the
/// output that they are about. One that an output is active also gives it the
/// focus, and is told about exactly if another had the focus and the event is
/// subscribed. Nothing else is told about. Reports of an output that is not known
/// change nothing and are not told about.
pub proof fn only_frames_take_effect(c: CompositorView, id: u32, event: OutputEvent)
    requires
        event != OutputEvent::Frame,
    ensures
        ({
            let after = after_report(c, id, event);
            let output = c.outputs[id].0;
            let told = report_events(c, id, event);
            if c.outputs.dom().contains(id) {
                let focuses = event matches OutputEvent::Active(active) && active != 0;
                &&& after == (CompositorView {
                    pending: after.pending,
                    focused_output: after.focused_output,
                    focused_output_id: after.focused_output_id,
                    ..c
                })
                &&& after.pending == c.pending.insert(
                    output,
                    reported(in_progress(c, output), event),
                )
                &&& after.focused_output == if focuses {
                    output
                } else {
                    c.focused_output
                }
                &&& after.focused_output_id == if focuses {
                    Some(id)
                } else {
                    c.focused_output_id
                }
                &&& told == if focuses && c.focused_output != output && c.subscriptions.contains(
                    "output_focus"@,
                ) {
                    seq![
                        EventView {
                            name: "output_focus"@,
                            prev: Some(focus_state(c, c.focused_output)),
                            curr: Some(focus_state(c, output)),
                        },
                    ]
                } else {
                    Seq::empty()
                }
            } else {
                after == c && told == Seq::<EventView>::empty()
            }
        }),
{
    let told = report_events(c, id, event);
    if told.len() > 0 {
        assert(told =~= seq![told[0]]);
    } else {
        assert(told =~= Seq::empty());
    }
}

/// The compositor after some reports of one status object.
pub open spec fn after_reports(c: CompositorView, id: u32, events: Seq<OutputEvent>) -> CompositorView
    decreases events.len(),
{
    if events.len() == 0 {
        c
    } else {
        after_report(after_reports(c, id, events.drop_last()), id, events.last())
    }
}

/// An output after some reports.
pub open spec fn all_reported(o: OutputView, events: Seq<OutputEvent>) -> OutputView
    decreases events.len(),
{
    if events.len() == 0 {
        o
    } else {
        reported(all_reported(o, events.drop_last()), events.last())
    }
}

/// The end of a frame applies everything that was reported since the last one,
/// and all at once.
pub proof fn frame_applies_all_reports(c: CompositorView, id: u32, events: Seq<OutputEvent>)
    requires
        c.outputs.dom().contains(id),
        forall|i: int| 0 <= i < events.len() ==> #[trigger] events[i] != OutputEvent::Frame,
    ensures
        after_reports(c, id, events).states == c.states,
        after_report(after_reports(c, id, events), id, OutputEvent::Frame).states
            == c.states.insert(
            c.outputs[id].0,
            all_reported(in_progress(c, c.outputs[id].0), events),
        ),
{
    reports_accumulate(c, id, events);
}

proof fn reports_accumulate(c: CompositorView, id: u32, events: Seq<OutputEvent>)
    requires
        c.outputs.dom().contains(id),
        forall|i: int| 0 <= i < events.len() ==> #[trigger] events[i] != OutputEvent::Frame,
    ensures
        after_reports(c, id, events).states == c.states,
        after_reports(c, id, events).outputs == c.outputs,
        in_progress(after_reports(c, id, events), c.outputs[id].0) == all_reported(
            in_progress(c, c.outputs[id].0),
            events,
        ),
    decreases events.len(),
{
    if events.len() > 0 {
        let init = events.drop_last();
        assert forall|i: int| 0 <= i < init.len() implies #[trigger] init[i]
            != OutputEvent::Frame by {
            assert(init[i] == events[i]);
        }
        reports_accumulate(c, id, init);
        assert(events.last() == events[events.len() - 1]);
    }
}

/// A frame in which nothing changed is not reported.
pub proof fn unchanged_frames_are_silent(
    o: OutputView,
    output: Seq<char>,
    layouts: Seq<Seq<char>>,
    subs: Set<Seq<char>>,
)
    ensures
        frame_events(o, o, output, layouts, subs) == Seq::<EventView>::empty(),
{
}

/// A frame that follows another without a report between them brings no event.
pub proof fn second_frame_is_silent(c: CompositorView, id: u32)
    ensures
        report_events(after_report(c, id, OutputEvent::Frame), id, OutputEvent::Frame) == Seq::<
            EventView,
        >::empty(),
{
    if c.outputs.dom().contains(id) {
        let after = after_report(c, id, OutputEvent::Frame);
        let output = c.outputs[id].0;
        unchanged_frames_are_silent(
            after.states[output],
            output,
            after.layouts,
            after.subscriptions,
        );
    }
}

spec fn all_subscribed(events: Seq<EventView>, subs: Set<Seq<char>>) -> bool {
    forall|i: int| 0 <= i < events.len() ==> subs.contains((#[trigger] events[i]).name)
}

proof fn frame_events_are_subscribed(
    prev: OutputView,
    curr: OutputView,
    output: Seq<char>,
    layouts: Seq<Seq<char>>,
    subs: Set<Seq<char>>,
)
    ensures
        all_subscribed(frame_events(prev, curr, output, layouts, subs), subs),
{
    let events = frame_events(prev, curr, output, layouts, subs);
    assert forall|i: int| 0 <= i < events.len() implies subs.contains((#[trigger] events[i]).name) by {
        assert(events.contains(events[i]));
        frames_tell_all_changes(prev, curr, output, layouts, subs, events[i]);
    }
}

/// Only events whose names are subscribed are reported.
pub proof fn only_subscribed_events(c: CompositorView, id: u32, event: OutputEvent)
    ensures
        forall|i: int|
            0 <= i < report_events(c, id, event).len() ==> c.subscriptions.contains(
                (#[trigger] report_events(c, id, event)[i]).name,
            ),
{
    let events = report_events(c, id, event);
    if c.outputs.dom().contains(id) {
        let output = c.outputs[id].0;
        if event == OutputEvent::Frame && c.states.dom().contains(output) {
            frame_events_are_subscribed(
                c.states[output],
                in_progress(c, output),
                output,
                c.layouts,
                c.subscriptions,
            );
        }
    }
    assert(all_subscribed(events, c.subscriptions));
}

/// An output that becomes active has the focus, and takes the commands if its
/// status object is there.
pub proof fn active_output_has_focus(c: CompositorView, id: u32, active: u32)
    requires
        active != 0,
        c.outputs.dom().contains(id),
    ensures
        ({
            let after = after_report(c, id, OutputEvent::Active(active));
            &&& after.focused_output == c.outputs[id].0
            &&& after.focused_output_id == Some(id)
            &&& command_target_of(after) is Ok <==> c.outputs[id].1
        }),
{
}

/// Giving an output its name loses nothing that was known of it.
pub proof fn naming_keeps_the_state(c: CompositorView, id: u32, name: Seq<char>)
    requires
        c.outputs.dom().contains(id),
        c.states.dom().contains(c.outputs[id].0),
    ensures
        after_name(c, id, name).states.dom().contains(name),
        after_name(c, id, name).states[name] == c.states[c.outputs[id].0],
        after_name(c, id, name).outputs[id].0 == name,
{
}

/// The layout that is found is the first that the request names.
pub proof fn first_layout_is_found(layouts: Seq<Seq<char>>, requested: Seq<char>, from: int)
    requires
        0 <= from,
    ensures
        match layout_index(layouts, requested, from) {
            Some(i) => from <= i < layouts.len() && layout_fits(layouts[i], requested) && forall|
                j: int,
            |
                from <= j < i ==> !layout_fits(#[trigger] layouts[j], requested),
            None => forall|j: int|
                from <= j < layouts.len() ==> !layout_fits(#[trigger] layouts[j], requested),
        },
    decreases layouts.len() - from,
{
    if from < layouts.len() && !layout_fits(layouts[from], requested) {
        first_layout_is_found(layouts, requested, from + 1);
    }
}

/// Exactly the declared keys can be read once an output has the focus, and
/// exactly those that are declared writable can be set to some value, given
/// suitable layouts.
pub proof fn manifest_tells_the_truth(c: CompositorView, key: Seq<char>)
    requires
        c.states.dom().contains(c.focused_output),
    ensures
        (key == "outputs"@ || output_value(c, c.states[c.focused_output], key) is Ok) <==> (exists|
            i: int,
        |
            0 <= i < mango_manifest().len() && (#[trigger] mango_manifest()[i]).name == key),
        (exists|layouts: Seq<Seq<char>>, v: JsonView| command_for(layouts, key, v) is Ok) <==> (
        exists|i: int|
            0 <= i < mango_manifest().len() && (#[trigger] mango_manifest()[i]).name == key
                && mango_manifest()[i].access == AccessMode::ReadWrite),
{
    let caps = mango_manifest();
    assert(caps.len() == 26);
    assert(caps[0].name == "layout"@ && caps[1].name == "layout_name"@ && caps[2].name
        == "layout_symbol"@ && caps[3].name == "layouts"@ && caps[4].name == "tags"@
        && caps[5].name == "client_tags"@ && caps[6].name == "tag_count"@ && caps[7].name
        == "tag_info"@ && caps[8].name == "occupied_tags"@ && caps[9].name == "urgent_tags"@
        && caps[10].name == "client_count"@ && caps[11].name == "title"@ && caps[12].name
        == "appid"@ && caps[13].name == "output"@ && caps[14].name == "outputs"@
        && caps[15].name == "fullscreen"@ && caps[16].name == "floating"@ && caps[17].name
        == "geometry"@ && caps[18].name == "x"@ && caps[19].name == "y"@ && caps[20].name
        == "width"@ && caps[21].name == "height"@ && caps[22].name == "last_layer"@
        && caps[23].name == "kb_layout"@ && caps[24].name == "keymode"@ && caps[25].name
        == "scale_factor"@);
    if key == "tags"@ || key == "client_tags"@ || key == "layout"@ {
        assert(command_for(Seq::empty(), key, int_json(1)) is Ok);
    } else if key == "layout_name"@ {
        let layouts = seq!["T"@];
        assert(layout_fits(layouts[0], "T"@));
        assert(layout_index(layouts, "T"@, 0) == Some(0int));
        assert(command_for(layouts, key, text_json("T"@)) is Ok);
    }
}

proof fn lemma_emitted(
    events: Seq<EventView>,
    subs: Set<Seq<char>>,
    changed: bool,
    name: Seq<char>,
    prev: Map<Seq<char>, JsonView>,
    curr: Map<Seq<char>, JsonView>,
    x: EventView,
)
    ensures
        emitted(events, subs, changed, name, prev, curr).contains(x) <==> events.contains(x) || (
        changed && subs.contains(name) && x == (EventView {
            name,
            prev: Some(prev),
            curr: Some(curr),
        })),
{
    let after = emitted(events, subs, changed, name, prev, curr);
    let added = EventView { name, prev: Some(prev), curr: Some(curr) };
    if changed && subs.contains(name) {
        assert(after == events.push(added));
        assert(after[events.len() as int] == added);
        if events.contains(x) {
            let i = choose|i: int| 0 <= i < events.len() && events[i] == x;
            assert(after[i] == x);
        }
        if after.contains(x) {
            let i = choose|i: int| 0 <= i < after.len() && after[i] == x;
            if i < events.len() {
                assert(events[i] == x);
            }
        }
    }
}

/// The frame of an output brings exactly these events: one of each name that is
/// subscribed and of which one of the named fields differs between the state before
/// the frame and the state after it, with the fields before and after.
pub proof fn frames_tell_all_changes(
    prev: OutputView,
    curr: OutputView,
    output: Seq<char>,
    layouts: Seq<Seq<char>>,
    subs: Set<Seq<char>>,
    x: EventView,
)
    ensures
        frame_events(prev, curr, output, layouts, subs).contains(x) <==> subs.contains(x.name) && {
            ||| (prev.active_tags != curr.active_tags) && x == (EventView {
                name: "tag_change"@,
                prev: Some(
                    map![
                        "tags"@ => JsonView::Number(NumberView::Int(prev.active_tags as int)),
                        "output"@ => JsonView::Str(output),
                    ],
                ),
                curr: Some(
                    map![
                        "tags"@ => JsonView::Number(NumberView::Int(curr.active_tags as int)),
                        "output"@ => JsonView::Str(output),
                    ],
                ),
            })
            ||| (prev.layout_idx != curr.layout_idx || prev.layout_symbol != curr.layout_symbol)
                && x == (EventView {
                name: "layout_change"@,
                prev: Some(
                    map![
                        "layout"@ => JsonView::Number(NumberView::Int(prev.layout_idx as int)),
                        "layout_name"@ => JsonView::Str(layout_name_of(layout_label_of(prev,
                            layouts))),
                        "layout_symbol"@ => JsonView::Str(prev.layout_symbol),
                        "output"@ => JsonView::Str(output),
                    ],
                ),
                curr: Some(
                    map![
                        "layout"@ => JsonView::Number(NumberView::Int(curr.layout_idx as int)),
                        "layout_name"@ => JsonView::Str(layout_name_of(layout_label_of(curr,
                            layouts))),
                        "layout_symbol"@ => JsonView::Str(curr.layout_symbol),
                        "output"@ => JsonView::Str(output),
                    ],
                ),
            })
            ||| (prev.title != curr.title || prev.appid != curr.appid) && x == (EventView {
                name: "focus_change"@,
                prev: Some(
                    map![
                        "title"@ => JsonView::Str(prev.title),
                        "appid"@ => JsonView::Str(prev.appid),
                    ],
                ),
                curr: Some(
                    map![
                        "title"@ => JsonView::Str(curr.title),
                        "appid"@ => JsonView::Str(curr.appid),
                    ],
                ),
            })
            ||| (prev.fullscreen != curr.fullscreen || prev.floating != curr.floating)
                && x == (EventView {
                name: "window_state_change"@,
                prev: Some(
                    map![
                        "fullscreen"@ => JsonView::Bool(prev.fullscreen),
                        "floating"@ => JsonView::Bool(prev.floating),
                        "output"@ => JsonView::Str(output),
                    ],
                ),
                curr: Some(
                    map![
                        "fullscreen"@ => JsonView::Bool(curr.fullscreen),
                        "floating"@ => JsonView::Bool(curr.floating),
                        "output"@ => JsonView::Str(output),
                    ],
                ),
            })
            ||| (prev.x != curr.x || prev.y != curr.y || prev.width != curr.width
                || prev.height != curr.height) && x == (EventView {
                name: "geometry_change"@,
                prev: Some(
                    map![
                        "x"@ => JsonView::Number(NumberView::Int(prev.x as int)),
                        "y"@ => JsonView::Number(NumberView::Int(prev.y as int)),
                        "width"@ => JsonView::Number(NumberView::Int(prev.width as int)),
                        "height"@ => JsonView::Number(NumberView::Int(prev.height as int)),
                        "output"@ => JsonView::Str(output),
                    ],
                ),
                curr: Some(
                    map![
                        "x"@ => JsonView::Number(NumberView::Int(curr.x as int)),
                        "y"@ => JsonView::Number(NumberView::Int(curr.y as int)),
                        "width"@ => JsonView::Number(NumberView::Int(curr.width as int)),
                        "height"@ => JsonView::Number(NumberView::Int(curr.height as int)),
                        "output"@ => JsonView::Str(output),
                    ],
                ),
            })
            ||| (prev.last_layer != curr.last_layer) && x == (EventView {
                name: "layer_change"@,
                prev: Some(
                    map![
                        "last_layer"@ => JsonView::Str(prev.last_layer),
                        "output"@ => JsonView::Str(output),
                    ],
                ),
                curr: Some(
                    map![
                        "last_layer"@ => JsonView::Str(curr.last_layer),
                        "output"@ => JsonView::Str(output),
                    ],
                ),
            })
            ||| (prev.kb_layout != curr.kb_layout) && x == (EventView {
                name: "keyboard_layout_change"@,
                prev: Some(
                    map![
                        "kb_layout"@ => JsonView::Str(prev.kb_layout),
                        "output"@ => JsonView::Str(output),
                    ],
                ),
                curr: Some(
                    map![
                        "kb_layout"@ => JsonView::Str(curr.kb_layout),
                        "output"@ => JsonView::Str(output),
                    ],
                ),
            })
            ||| (prev.keymode != curr.keymode) && x == (EventView {
                name: "keymode_change"@,
                prev: Some(
                    map![
                        "keymode"@ => JsonView::Str(prev.keymode),
                        "output"@ => JsonView::Str(output),
                    ],
                ),
                curr: Some(
                    map![
                        "keymode"@ => JsonView::Str(curr.keymode),
                        "output"@ => JsonView::Str(output),
                    ],
                ),
            })
            ||| (prev.scale_factor != curr.scale_factor) && x == (EventView {
                name: "scale_factor_change"@,
                prev: Some(
                    map![
                        "scale_factor"@ => JsonView::Number(prev.scale),
                        "output"@ => JsonView::Str(output),
                    ],
                ),
                curr: Some(
                    map![
                        "scale_factor"@ => JsonView::Number(curr.scale),
                        "output"@ => JsonView::Str(output),
                    ],
                ),
            })
        },
{
    let e0 = Seq::<EventView>::empty();
    assert(!e0.contains(x));
    let e1 = emitted(
        e0,
        subs,
        prev.active_tags != curr.active_tags,
        "tag_change"@,
        tag_fields(prev, output),
        tag_fields(curr, output),
    );
    lemma_emitted(
        e0,
        subs,
        prev.active_tags != curr.active_tags,
        "tag_change"@,
        tag_fields(prev, output),
        tag_fields(curr, output),
        x,
    );
    let e2 = emitted(
        e1,
        subs,
        prev.layout_idx != curr.layout_idx || prev.layout_symbol != curr.layout_symbol,
        "layout_change"@,
        layout_fields(prev, output, layouts),
        layout_fields(curr, output, layouts),
    );
    lemma_emitted(
        e1,
        subs,
        prev.layout_idx != curr.layout_idx || prev.layout_symbol != curr.layout_symbol,
        "layout_change"@,
        layout_fields(prev, output, layouts),
        layout_fields(curr, output, layouts),
        x,
    );
    let e3 = emitted(
        e2,
        subs,
        prev.title != curr.title || prev.appid != curr.appid,
        "focus_change"@,
        window_fields(prev),
        window_fields(curr),
    );
    lemma_emitted(
        e2,
        subs,
        prev.title != curr.title || prev.appid != curr.appid,
        "focus_change"@,
        window_fields(prev),
        window_fields(curr),
        x,
    );
    let e4 = emitted(
        e3,
        subs,
        prev.fullscreen != curr.fullscreen || prev.floating != curr.floating,
        "window_state_change"@,
        window_state_fields(prev, output),
        window_state_fields(curr, output),
    );
    lemma_emitted(
        e3,
        subs,
        prev.fullscreen != curr.fullscreen || prev.floating != curr.floating,
        "window_state_change"@,
        window_state_fields(prev, output),
        window_state_fields(curr, output),
        x,
    );
    let e5 = emitted(
        e4,
        subs,
        prev.x != curr.x || prev.y != curr.y || prev.width != curr.width
            || prev.height != curr.height,
        "geometry_change"@,
        geometry_fields(prev, output),
        geometry_fields(curr, output),
    );
    lemma_emitted(
        e4,
        subs,
        prev.x != curr.x || prev.y != curr.y || prev.width != curr.width
            || prev.height != curr.height,
        "geometry_change"@,
        geometry_fields(prev, output),
        geometry_fields(curr, output),
        x,
    );
    let e6 = emitted(
        e5,
        subs,
        prev.last_layer != curr.last_layer,
        "layer_change"@,
        text_fields("last_layer"@, prev.last_layer, output),
        text_fields("last_layer"@, curr.last_layer, output),
    );
    lemma_emitted(
        e5,
        subs,
        prev.last_layer != curr.last_layer,
        "layer_change"@,
        text_fields("last_layer"@, prev.last_layer, output),
        text_fields("last_layer"@, curr.last_layer, output),
        x,
    );
    let e7 = emitted(
        e6,
        subs,
        prev.kb_layout != curr.kb_layout,
        "keyboard_layout_change"@,
        text_fields("kb_layout"@, prev.kb_layout, output),
        text_fields("kb_layout"@, curr.kb_layout, output),
    );
    lemma_emitted(
        e6,
        subs,
        prev.kb_layout != curr.kb_layout,
        "keyboard_layout_change"@,
        text_fields("kb_layout"@, prev.kb_layout, output),
        text_fields("kb_layout"@, curr.kb_layout, output),
        x,
    );
    let e8 = emitted(
        e7,
        subs,
        prev.keymode != curr.keymode,
        "keymode_change"@,
        text_fields("keymode"@, prev.keymode, output),
        text_fields("keymode"@, curr.keymode, output),
    );
    lemma_emitted(
        e7,
        subs,
        prev.keymode != curr.keymode,
        "keymode_change"@,
        text_fields("keymode"@, prev.keymode, output),
        text_fields("keymode"@, curr.keymode, output),
        x,
    );
    let e9 = emitted(
        e8,
        subs,
        prev.scale_factor != curr.scale_factor,
        "scale_factor_change"@,
        scale_fields(prev, output),
        scale_fields(curr, output),
    );
    lemma_emitted(
        e8,
        subs,
        prev.scale_factor != curr.scale_factor,
        "scale_factor_change"@,
        scale_fields(prev, output),
        scale_fields(curr, output),
        x,
    );
    assert(tag_fields(prev, output) =~= map![
        "tags"@ => JsonView::Number(NumberView::Int(prev.active_tags as int)),
        "output"@ => JsonView::Str(output),
    ]);
    assert(tag_fields(curr, output) =~= map![
        "tags"@ => JsonView::Number(NumberView::Int(curr.active_tags as int)),
        "output"@ => JsonView::Str(output),
    ]);
    assert(layout_fields(prev, output, layouts) =~= map![
        "layout"@ => JsonView::Number(NumberView::Int(prev.layout_idx as int)),
        "layout_name"@ => JsonView::Str(layout_name_of(layout_label_of(prev, layouts))),
        "layout_symbol"@ => JsonView::Str(prev.layout_symbol),
        "output"@ => JsonView::Str(output),
    ]);
    assert(layout_fields(curr, output, layouts) =~= map![
        "layout"@ => JsonView::Number(NumberView::Int(curr.layout_idx as int)),
        "layout_name"@ => JsonView::Str(layout_name_of(layout_label_of(curr, layouts))),
        "layout_symbol"@ => JsonView::Str(curr.layout_symbol),
        "output"@ => JsonView::Str(output),
    ]);
    assert(window_fields(prev) =~= map![
        "title"@ => JsonView::Str(prev.title),
        "appid"@ => JsonView::Str(prev.appid),
    ]);
    assert(window_fields(curr) =~= map![
        "title"@ => JsonView::Str(curr.title),
        "appid"@ => JsonView::Str(curr.appid),
    ]);
    assert(window_state_fields(prev, output) =~= map![
        "fullscreen"@ => JsonView::Bool(prev.fullscreen),
        "floating"@ => JsonView::Bool(prev.floating),
        "output"@ => JsonView::Str(output),
    ]);
    assert(window_state_fields(curr, output) =~= map![
        "fullscreen"@ => JsonView::Bool(curr.fullscreen),
        "floating"@ => JsonView::Bool(curr.floating),
        "output"@ => JsonView::Str(output),
    ]);
    assert(geometry_fields(prev, output) =~= map![
        "x"@ => JsonView::Number(NumberView::Int(prev.x as int)),
        "y"@ => JsonView::Number(NumberView::Int(prev.y as int)),
        "width"@ => JsonView::Number(NumberView::Int(prev.width as int)),
        "height"@ => JsonView::Number(NumberView::Int(prev.height as int)),
        "output"@ => JsonView::Str(output),
    ]);
    assert(geometry_fields(curr, output) =~= map![
        "x"@ => JsonView::Number(NumberView::Int(curr.x as int)),
        "y"@ => JsonView::Number(NumberView::Int(curr.y as int)),
        "width"@ => JsonView::Number(NumberView::Int(curr.width as int)),
        "height"@ => JsonView::Number(NumberView::Int(curr.height as int)),
        "output"@ => JsonView::Str(output),
    ]);
    assert(text_fields("last_layer"@, prev.last_layer, output) =~= map![
        "last_layer"@ => JsonView::Str(prev.last_layer),
        "output"@ => JsonView::Str(output),
    ]);
    assert(text_fields("last_layer"@, curr.last_layer, output) =~= map![
        "last_layer"@ => JsonView::Str(curr.last_layer),
        "output"@ => JsonView::Str(output),
    ]);
    assert(text_fields("kb_layout"@, prev.kb_layout, output) =~= map![
        "kb_layout"@ => JsonView::Str(prev.kb_layout),
        "output"@ => JsonView::Str(output),
    ]);
    assert(text_fields("kb_layout"@, curr.kb_layout, output) =~= map![
        "kb_layout"@ => JsonView::Str(curr.kb_layout),
        "output"@ => JsonView::Str(output),
    ]);
    assert(text_fields("keymode"@, prev.keymode, output) =~= map![
        "keymode"@ => JsonView::Str(prev.keymode),
        "output"@ => JsonView::Str(output),
    ]);
    assert(text_fields("keymode"@, curr.keymode, output) =~= map![
        "keymode"@ => JsonView::Str(curr.keymode),
        "output"@ => JsonView::Str(output),
    ]);
    assert(scale_fields(prev, output) =~= map![
        "scale_factor"@ => JsonView::Number(prev.scale),
        "output"@ => JsonView::Str(output),
    ]);
    assert(scale_fields(curr, output) =~= map![
        "scale_factor"@ => JsonView::Number(curr.scale),
        "output"@ => JsonView::Str(output),
    ]);
    assert(frame_events(prev, curr, output, layouts, subs) == e9);
}

proof fn lemma_tag_change(
    prev: OutputView,
    curr: OutputView,
    output: Seq<char>,
    layouts: Seq<Seq<char>>,
    subs: Set<Seq<char>>,
)
    requires
        subs.contains("tag_change"@),
        prev.active_tags != curr.active_tags,
    ensures
        frame_events(prev, curr, output, layouts, subs).contains(
            EventView {
                name: "tag_change"@,
                prev: Some(tag_fields(prev, output)),
                curr: Some(tag_fields(curr, output)),
            },
        ),
{
    let x = EventView {
        name: "tag_change"@,
        prev: Some(tag_fields(prev, output)),
        curr: Some(tag_fields(curr, output)),
    };
    frames_tell_all_changes(prev, curr, output, layouts, subs, x);
    assert(tag_fields(prev, output) =~= map![
        "tags"@ => JsonView::Number(NumberView::Int(prev.active_tags as int)),
        "output"@ => JsonView::Str(output),
    ]);
    assert(tag_fields(curr, output) =~= map![
        "tags"@ => JsonView::Number(NumberView::Int(curr.active_tags as int)),
        "output"@ => JsonView::Str(output),
    ]);
}

proof fn lemma_layout_change(
    prev: OutputView,
    curr: OutputView,
    output: Seq<char>,
    layouts: Seq<Seq<char>>,
    subs: Set<Seq<char>>,
)
    requires
        subs.contains("layout_change"@),
        prev.layout_idx != curr.layout_idx || prev.layout_symbol != curr.layout_symbol,
    ensures
        frame_events(prev, curr, output, layouts, subs).contains(
            EventView {
                name: "layout_change"@,
                prev: Some(layout_fields(prev, output, layouts)),
                curr: Some(layout_fields(curr, output, layouts)),
            },
        ),
{
    let x = EventView {
        name: "layout_change"@,
        prev: Some(layout_fields(prev, output, layouts)),
        curr: Some(layout_fields(curr, output, layouts)),
    };
    frames_tell_all_changes(prev, curr, output, layouts, subs, x);
    assert(layout_fields(prev, output, layouts) =~= map![
        "layout"@ => JsonView::Number(NumberView::Int(prev.layout_idx as int)),
        "layout_name"@ => JsonView::Str(layout_name_of(layout_label_of(prev, layouts))),
        "layout_symbol"@ => JsonView::Str(prev.layout_symbol),
        "output"@ => JsonView::Str(output),
    ]);
    assert(layout_fields(curr, output, layouts) =~= map![
        "layout"@ => JsonView::Number(NumberView::Int(curr.layout_idx as int)),
        "layout_name"@ => JsonView::Str(layout_name_of(layout_label_of(curr, layouts))),
        "layout_symbol"@ => JsonView::Str(curr.layout_symbol),
        "output"@ => JsonView::Str(output),
    ]);
}

proof fn lemma_focus_change(
    prev: OutputView,
    curr: OutputView,
    output: Seq<char>,
    layouts: Seq<Seq<char>>,
    subs: Set<Seq<char>>,
)
    requires
        subs.contains("focus_change"@),
        prev.title != curr.title || prev.appid != curr.appid,
    ensures
        frame_events(prev, curr, output, layouts, subs).contains(
            EventView {
                name: "focus_change"@,
                prev: Some(window_fields(prev)),
                curr: Some(window_fields(curr)),
            },
        ),
{
    let x = EventView {
        name: "focus_change"@,
        prev: Some(window_fields(prev)),
        curr: Some(window_fields(curr)),
    };
    frames_tell_all_changes(prev, curr, output, layouts, subs, x);
    assert(window_fields(prev) =~= map![
        "title"@ => JsonView::Str(prev.title),
        "appid"@ => JsonView::Str(prev.appid),
    ]);
    assert(window_fields(curr) =~= map![
        "title"@ => JsonView::Str(curr.title),
        "appid"@ => JsonView::Str(curr.appid),
    ]);
}

proof fn lemma_window_state_change(
    prev: OutputView,
    curr: OutputView,
    output: Seq<char>,
    layouts: Seq<Seq<char>>,
    subs: Set<Seq<char>>,
)
    requires
        subs.contains("window_state_change"@),
        prev.fullscreen != curr.fullscreen || prev.floating != curr.floating,
    ensures
        frame_events(prev, curr, output, layouts, subs).contains(
            EventView {
                name: "window_state_change"@,
                prev: Some(window_state_fields(prev, output)),
                curr: Some(window_state_fields(curr, output)),
            },
        ),
{
    let x = EventView {
        name: "window_state_change"@,
        prev: Some(window_state_fields(prev, output)),
        curr: Some(window_state_fields(curr, output)),
    };
    frames_tell_all_changes(prev, curr, output, layouts, subs, x);
    assert(window_state_fields(prev, output) =~= map![
        "fullscreen"@ => JsonView::Bool(prev.fullscreen),
        "floating"@ => JsonView::Bool(prev.floating),
        "output"@ => JsonView::Str(output),
    ]);
    assert(window_state_fields(curr, output) =~= map![
        "fullscreen"@ => JsonView::Bool(curr.fullscreen),
        "floating"@ => JsonView::Bool(curr.floating),
        "output"@ => JsonView::Str(output),
    ]);
}

proof fn lemma_geometry_change(
    prev: OutputView,
    curr: OutputView,
    output: Seq<char>,
    layouts: Seq<Seq<char>>,
    subs: Set<Seq<char>>,
)
    requires
        subs.contains("geometry_change"@),
        prev.x != curr.x || prev.y != curr.y || prev.width != curr.width
            || prev.height != curr.height,
    ensures
        frame_events(prev, curr, output, layouts, subs).contains(
            EventView {
                name: "geometry_change"@,
                prev: Some(geometry_fields(prev, output)),
                curr: Some(geometry_fields(curr, output)),
            },
        ),
{
    let x = EventView {
        name: "geometry_change"@,
        prev: Some(geometry_fields(prev, output)),
        curr: Some(geometry_fields(curr, output)),
    };
    frames_tell_all_changes(prev, curr, output, layouts, subs, x);
    assert(geometry_fields(prev, output) =~= map![
        "x"@ => JsonView::Number(NumberView::Int(prev.x as int)),
        "y"@ => JsonView::Number(NumberView::Int(prev.y as int)),
        "width"@ => JsonView::Number(NumberView::Int(prev.width as int)),
        "height"@ => JsonView::Number(NumberView::Int(prev.height as int)),
        "output"@ => JsonView::Str(output),
    ]);
    assert(geometry_fields(curr, output) =~= map![
        "x"@ => JsonView::Number(NumberView::Int(curr.x as int)),
        "y"@ => JsonView::Number(NumberView::Int(curr.y as int)),
        "width"@ => JsonView::Number(NumberView::Int(curr.width as int)),
        "height"@ => JsonView::Number(NumberView::Int(curr.height as int)),
        "output"@ => JsonView::Str(output),
    ]);
}

proof fn lemma_layer_change(
    prev: OutputView,
    curr: OutputView,
    output: Seq<char>,
    layouts: Seq<Seq<char>>,
    subs: Set<Seq<char>>,
)
    requires
        subs.contains("layer_change"@),
        prev.last_layer != curr.last_layer,
    ensures
        frame_events(prev, curr, output, layouts, subs).contains(
            EventView {
                name: "layer_change"@,
                prev: Some(text_fields("last_layer"@, prev.last_layer, output)),
                curr: Some(text_fields("last_layer"@, curr.last_layer, output)),
            },
        ),
{
    let x = EventView {
        name: "layer_change"@,
        prev: Some(text_fields("last_layer"@, prev.last_layer, output)),
        curr: Some(text_fields("last_layer"@, curr.last_layer, output)),
    };
    frames_tell_all_changes(prev, curr, output, layouts, subs, x);
    assert(text_fields("last_layer"@, prev.last_layer, output) =~= map![
        "last_layer"@ => JsonView::Str(prev.last_layer),
        "output"@ => JsonView::Str(output),
    ]);
    assert(text_fields("last_layer"@, curr.last_layer, output) =~= map![
        "last_layer"@ => JsonView::Str(curr.last_layer),
        "output"@ => JsonView::Str(output),
    ]);
}

proof fn lemma_keyboard_layout_change(
    prev: OutputView,
    curr: OutputView,
    output: Seq<char>,
    layouts: Seq<Seq<char>>,
    subs: Set<Seq<char>>,
)
    requires
        subs.contains("keyboard_layout_change"@),
        prev.kb_layout != curr.kb_layout,
    ensures
        frame_events(prev, curr, output, layouts, subs).contains(
            EventView {
                name: "keyboard_layout_change"@,
                prev: Some(text_fields("kb_layout"@, prev.kb_layout, output)),
                curr: Some(text_fields("kb_layout"@, curr.kb_layout, output)),
            },
        ),
{
    let x = EventView {
        name: "keyboard_layout_change"@,
        prev: Some(text_fields("kb_layout"@, prev.kb_layout, output)),
        curr: Some(text_fields("kb_layout"@, curr.kb_layout, output)),
    };
    frames_tell_all_changes(prev, curr, output, layouts, subs, x);
    assert(text_fields("kb_layout"@, prev.kb_layout, output) =~= map![
        "kb_layout"@ => JsonView::Str(prev.kb_layout),
        "output"@ => JsonView::Str(output),
    ]);
    assert(text_fields("kb_layout"@, curr.kb_layout, output) =~= map![
        "kb_layout"@ => JsonView::Str(curr.kb_layout),
        "output"@ => JsonView::Str(output),
    ]);
}

proof fn lemma_keymode_change(
    prev: OutputView,
    curr: OutputView,
    output: Seq<char>,
    layouts: Seq<Seq<char>>,
    subs: Set<Seq<char>>,
)
    requires
        subs.contains("keymode_change"@),
        prev.keymode != curr.keymode,
    ensures
        frame_events(prev, curr, output, layouts, subs).contains(
            EventView {
                name: "keymode_change"@,
                prev: Some(text_fields("keymode"@, prev.keymode, output)),
                curr: Some(text_fields("keymode"@, curr.keymode, output)),
            },
        ),
{
    let x = EventView {
        name: "keymode_change"@,
        prev: Some(text_fields("keymode"@, prev.keymode, output)),
        curr: Some(text_fields("keymode"@, curr.keymode, output)),
    };
    frames_tell_all_changes(prev, curr, output, layouts, subs, x);
    assert(text_fields("keymode"@, prev.keymode, output) =~= map![
        "keymode"@ => JsonView::Str(prev.keymode),
        "output"@ => JsonView::Str(output),
    ]);
    assert(text_fields("keymode"@, curr.keymode, output) =~= map![
        "keymode"@ => JsonView::Str(curr.keymode),
        "output"@ => JsonView::Str(output),
    ]);
}

proof fn lemma_scale_factor_change(
    prev: OutputView,
    curr: OutputView,
    output: Seq<char>,
    layouts: Seq<Seq<char>>,
    subs: Set<Seq<char>>,
)
    requires
        subs.contains("scale_factor_change"@),
        prev.scale_factor != curr.scale_factor,
    ensures
        frame_events(prev, curr, output, layouts, subs).contains(
            EventView {
                name: "scale_factor_change"@,
                prev: Some(scale_fields(prev, output)),
                curr: Some(scale_fields(curr, output)),
            },
        ),
{
    let x = EventView {
        name: "scale_factor_change"@,
        prev: Some(scale_fields(prev, output)),
        curr: Some(scale_fields(curr, output)),
    };
    frames_tell_all_changes(prev, curr, output, layouts, subs, x);
    assert(scale_fields(prev, output) =~= map![
        "scale_factor"@ => JsonView::Number(prev.scale),
        "output"@ => JsonView::Str(output),
    ]);
    assert(scale_fields(curr, output) =~= map![
        "scale_factor"@ => JsonView::Number(curr.scale),
        "output"@ => JsonView::Str(output),
    ]);
}

/// No subscribed change is lost, and none is made up: when the frame of a known output
/// ends, an event of a name comes exactly if it is subscribed and what was reported
/// differs from the state before in one of the fields that the event shows.
pub proof fn changes_are_not_lost(c: CompositorView, id: u32, name: Seq<char>)
    requires
        c.outputs.dom().contains(id),
        c.states.dom().contains(c.outputs[id].0),
        c.pending.dom().contains(c.outputs[id].0),
    ensures
        (exists|i: int|
            0 <= i < report_events(c, id, OutputEvent::Frame).len() && (#[trigger] report_events(
                c,
                id,
                OutputEvent::Frame,
            )[i]).name == name) <==> c.subscriptions.contains(name) && ({
            let before = c.states[c.outputs[id].0];
            let after = c.pending[c.outputs[id].0];
            ||| name == "tag_change"@ && (before.active_tags != after.active_tags)
            ||| name == "layout_change"@ && (before.layout_idx != after.layout_idx
                || before.layout_symbol != after.layout_symbol)
            ||| name == "focus_change"@ && (before.title != after.title
                || before.appid != after.appid)
            ||| name == "window_state_change"@ && (before.fullscreen != after.fullscreen
                || before.floating != after.floating)
            ||| name == "geometry_change"@ && (before.x != after.x || before.y != after.y
                || before.width != after.width || before.height != after.height)
            ||| name == "layer_change"@ && (before.last_layer != after.last_layer)
            ||| name == "keyboard_layout_change"@ && (before.kb_layout != after.kb_layout)
            ||| name == "keymode_change"@ && (before.keymode != after.keymode)
            ||| name == "scale_factor_change"@ && (before.scale_factor != after.scale_factor)
        }),
{
    let output = c.outputs[id].0;
    let (prev, curr, layouts, subs) = (
        c.states[output],
        c.pending[output],
        c.layouts,
        c.subscriptions,
    );
    let events = report_events(c, id, OutputEvent::Frame);
    assert(events == frame_events(prev, curr, output, layouts, subs));
    if exists|i: int| 0 <= i < events.len() && (#[trigger] events[i]).name == name {
        let i = choose|i: int| 0 <= i < events.len() && (#[trigger] events[i]).name == name;
        assert(events.contains(events[i]));
        frames_tell_all_changes(prev, curr, output, layouts, subs, events[i]);
    }
    if subs.contains(name) && name == "tag_change"@ && (prev.active_tags != curr.active_tags) {
        let x = EventView { name, prev: Some(tag_fields(prev, output)), curr: Some(tag_fields(curr,
            output)) };
        lemma_tag_change(prev, curr, output, layouts, subs);
        let i = choose|i: int| 0 <= i < events.len() && events[i] == x;
        assert(events[i].name == name);
    }
    if subs.contains(name) && name == "layout_change"@ && (prev.layout_idx != curr.layout_idx
        || prev.layout_symbol != curr.layout_symbol) {
        let x = EventView { name, prev: Some(layout_fields(prev, output, layouts)),
            curr: Some(layout_fields(curr, output, layouts)) };
        lemma_layout_change(prev, curr, output, layouts, subs);
        let i = choose|i: int| 0 <= i < events.len() && events[i] == x;
        assert(events[i].name == name);
    }
    if subs.contains(name) && name == "focus_change"@ && (prev.title != curr.title
        || prev.appid != curr.appid) {
        let x = EventView { name, prev: Some(window_fields(prev)),
            curr: Some(window_fields(curr)) };
        lemma_focus_change(prev, curr, output, layouts, subs);
        let i = choose|i: int| 0 <= i < events.len() && events[i] == x;
        assert(events[i].name == name);
    }
    if subs.contains(name) && name == "window_state_change"@ && (prev.fullscreen != curr.fullscreen
        || prev.floating != curr.floating) {
        let x = EventView { name, prev: Some(window_state_fields(prev, output)),
            curr: Some(window_state_fields(curr, output)) };
        lemma_window_state_change(prev, curr, output, layouts, subs);
        let i = choose|i: int| 0 <= i < events.len() && events[i] == x;
        assert(events[i].name == name);
    }
    if subs.contains(name) && name == "geometry_change"@ && (prev.x != curr.x || prev.y != curr.y
        || prev.width != curr.width || prev.height != curr.height) {
        let x = EventView { name, prev: Some(geometry_fields(prev, output)),
            curr: Some(geometry_fields(curr, output)) };
        lemma_geometry_change(prev, curr, output, layouts, subs);
        let i = choose|i: int| 0 <= i < events.len() && events[i] == x;
        assert(events[i].name == name);
    }
    if subs.contains(name) && name == "layer_change"@ && (prev.last_layer != curr.last_layer) {
        let x = EventView { name, prev: Some(text_fields("last_layer"@, prev.last_layer, output)),
            curr: Some(text_fields("last_layer"@, curr.last_layer, output)) };
        lemma_layer_change(prev, curr, output, layouts, subs);
        let i = choose|i: int| 0 <= i < events.len() && events[i] == x;
        assert(events[i].name == name);
    }
    if subs.contains(name) && name == "keyboard_layout_change"@
        && (prev.kb_layout != curr.kb_layout) {
        let x = EventView { name, prev: Some(text_fields("kb_layout"@, prev.kb_layout, output)),
            curr: Some(text_fields("kb_layout"@, curr.kb_layout, output)) };
        lemma_keyboard_layout_change(prev, curr, output, layouts, subs);
        let i = choose|i: int| 0 <= i < events.len() && events[i] == x;
        assert(events[i].name == name);
    }
    if subs.contains(name) && name == "keymode_change"@ && (prev.keymode != curr.keymode) {
        let x = EventView { name, prev: Some(text_fields("keymode"@, prev.keymode, output)),
            curr: Some(text_fields("keymode"@, curr.keymode, output)) };
        lemma_keymode_change(prev, curr, output, layouts, subs);
        let i = choose|i: int| 0 <= i < events.len() && events[i] == x;
        assert(events[i].name == name);
    }
    if subs.contains(name) && name == "scale_factor_change"@ && (prev.scale_factor
        != curr.scale_factor) {
        let x = EventView { name, prev: Some(scale_fields(prev, output)),
            curr: Some(scale_fields(curr, output)) };
        lemma_scale_factor_change(prev, curr, output, layouts, subs);
        let i = choose|i: int| 0 <= i < events.len() && events[i] == x;
        assert(events[i].name == name);
    }
}

/// What is read of a key of the output with a number, once a report and the end of the
/// frame have come.
pub open spec fn read_after(c: CompositorView, id: u32, event: OutputEvent,
    key: Seq<char>) -> Result<
    JsonView,
    Seq<char>,
> {
    let shown = after_report(after_report(c, id, event), id, OutputEvent::Frame);
    output_value(shown, shown.states[shown.outputs[id].0], key)
}

/// What is reported of an output is read back under its key when the frame has ended.
pub proof fn reports_are_read_back(
    c: CompositorView,
    id: u32,
    text: String,
    n: u32,
    i: i32,
    scale: Number,
)
    requires
        c.outputs.dom().contains(id),
    ensures
        read_after(c, id, OutputEvent::Title(text), "title"@) == Ok::<JsonView, Seq<char>>(
            JsonView::Str(text@),
        ),
        read_after(c, id, OutputEvent::Appid(text), "appid"@) == Ok::<JsonView, Seq<char>>(
            JsonView::Str(text@),
        ),
        read_after(c, id, OutputEvent::LayoutSymbol(text), "layout_symbol"@) == Ok::<JsonView,
            Seq<char>>(
            JsonView::Str(text@),
        ),
        read_after(c, id, OutputEvent::LastLayer(text), "last_layer"@) == Ok::<JsonView, Seq<char>>(
            JsonView::Str(text@),
        ),
        read_after(c, id, OutputEvent::KbLayout(text), "kb_layout"@) == Ok::<JsonView, Seq<char>>(
            JsonView::Str(text@),
        ),
        read_after(c, id, OutputEvent::Keymode(text), "keymode"@) == Ok::<JsonView, Seq<char>>(
            JsonView::Str(text@),
        ),
        read_after(c, id, OutputEvent::Layout(n), "layout"@) == Ok::<JsonView, Seq<char>>(
            JsonView::Number(NumberView::Int(n as int)),
        ),
        read_after(c, id, OutputEvent::Fullscreen(n), "fullscreen"@) == Ok::<JsonView, Seq<char>>(
            JsonView::Bool(n != 0),
        ),
        read_after(c, id, OutputEvent::Floating(n), "floating"@) == Ok::<JsonView, Seq<char>>(
            JsonView::Bool(n != 0),
        ),
        read_after(c, id, OutputEvent::X(i), "x"@) == Ok::<JsonView, Seq<char>>(
            JsonView::Number(NumberView::Int(i as int)),
        ),
        read_after(c, id, OutputEvent::Y(i), "y"@) == Ok::<JsonView, Seq<char>>(
            JsonView::Number(NumberView::Int(i as int)),
        ),
        read_after(c, id, OutputEvent::Width(i), "width"@) == Ok::<JsonView, Seq<char>>(
            JsonView::Number(NumberView::Int(i as int)),
        ),
        read_after(c, id, OutputEvent::Height(i), "height"@) == Ok::<JsonView, Seq<char>>(
            JsonView::Number(NumberView::Int(i as int)),
        ),
        read_after(c, id, OutputEvent::Scalefactor(n, scale), "scale_factor"@) == Ok::<JsonView,
            Seq<char>>(
            JsonView::Number(scale@),
        ),
        read_after(c, id, OutputEvent::ToggleVisibility, "tag_count"@) == Ok::<JsonView, Seq<char>>(
            JsonView::Number(NumberView::Int(c.tag_count as int)),
        ),
        n != 0 ==> read_after(c, id, OutputEvent::Active(n), "output"@) == Ok::<JsonView,
            Seq<char>>(
            JsonView::Str(c.outputs[id].0),
        ),
        n == 0 ==> read_after(c, id, OutputEvent::Active(n), "output"@) == Ok::<JsonView,
            Seq<char>>(
            JsonView::Str(c.focused_output),
        ),
        text@.len() > 0 ==> read_after(c, id, OutputEvent::LayoutSymbol(text),
            "layout_name"@) == Ok::<
            JsonView,
            Seq<char>,
        >(JsonView::Str(layout_name_of(text@))),
{
    reveal_strlit("layout");
    reveal_strlit("layout_name");
    reveal_strlit("layout_symbol");
    reveal_strlit("layouts");
    reveal_strlit("tags");
    reveal_strlit("client_tags");
    reveal_strlit("tag_count");
    reveal_strlit("tag_info");
    reveal_strlit("occupied_tags");
    reveal_strlit("urgent_tags");
    reveal_strlit("client_count");
    reveal_strlit("title");
    reveal_strlit("appid");
    reveal_strlit("output");
    reveal_strlit("fullscreen");
    reveal_strlit("floating");
    reveal_strlit("geometry");
    reveal_strlit("x");
    reveal_strlit("y");
    reveal_strlit("width");
    reveal_strlit("height");
    reveal_strlit("last_layer");
    reveal_strlit("kb_layout");
    reveal_strlit("keymode");
    reveal_strlit("scale_factor");
    reveal_strlit("outputs");
    assert("layout"@.len() == 6 && "layout"@[0] == 'l');
    assert("layout_name"@.len() == 11 && "layout_name"@[0] == 'l');
    assert("layout_symbol"@.len() == 13 && "layout_symbol"@[0] == 'l');
    assert("layouts"@.len() == 7 && "layouts"@[0] == 'l');
    assert("tags"@.len() == 4);
    assert("client_tags"@.len() == 11 && "client_tags"@[0] == 'c');
    assert("tag_count"@.len() == 9 && "tag_count"@[0] == 't');
    assert("tag_info"@.len() == 8 && "tag_info"@[0] == 't');
    assert("occupied_tags"@.len() == 13 && "occupied_tags"@[0] == 'o');
    assert("urgent_tags"@.len() == 11 && "urgent_tags"@[0] == 'u');
    assert("client_count"@.len() == 12 && "client_count"@[0] == 'c');
    assert("title"@.len() == 5 && "title"@[0] == 't');
    assert("appid"@.len() == 5 && "appid"@[0] == 'a');
    assert("output"@.len() == 6 && "output"@[0] == 'o');
    assert("fullscreen"@.len() == 10 && "fullscreen"@[0] == 'f');
    assert("floating"@.len() == 8 && "floating"@[0] == 'f');
    assert("geometry"@.len() == 8 && "geometry"@[0] == 'g');
    assert("x"@.len() == 1 && "x"@[0] == 'x');
    assert("y"@.len() == 1 && "y"@[0] == 'y');
    assert("width"@.len() == 5 && "width"@[0] == 'w');
    assert("height"@.len() == 6 && "height"@[0] == 'h');
    assert("last_layer"@.len() == 10 && "last_layer"@[0] == 'l');
    assert("kb_layout"@.len() == 9 && "kb_layout"@[0] == 'k');
    assert("keymode"@.len() == 7 && "keymode"@[0] == 'k');
    assert("scale_factor"@.len() == 12 && "scale_factor"@[0] == 's');
    assert("outputs"@.len() == 7 && "outputs"@[0] == 'o');
}

/// Which keys a report tells something of.
pub open spec fn tells_of(event: OutputEvent, key: Seq<char>) -> bool {
    match event {
        OutputEvent::Active(_) => key == "output"@,
        OutputEvent::Tag { .. } => key == "tags"@ || key == "client_tags"@ || key == "tag_info"@
            || key
            == "occupied_tags"@ || key == "urgent_tags"@ || key == "client_count"@,
        OutputEvent::Layout(_) => key == "layout"@ || key == "layout_name"@,
        OutputEvent::Title(_) => key == "title"@,
        OutputEvent::Appid(_) => key == "appid"@,
        OutputEvent::Fullscreen(_) => key == "fullscreen"@,
        OutputEvent::Floating(_) => key == "floating"@,
        OutputEvent::LayoutSymbol(_) => key == "layout_symbol"@ || key == "layout_name"@,
        OutputEvent::ToggleVisibility => false,
        OutputEvent::Frame => false,
        OutputEvent::X(_) => key == "x"@ || key == "geometry"@,
        OutputEvent::Y(_) => key == "y"@ || key == "geometry"@,
        OutputEvent::Width(_) => key == "width"@ || key == "geometry"@,
        OutputEvent::Height(_) => key == "height"@ || key == "geometry"@,
        OutputEvent::LastLayer(_) => key == "last_layer"@,
        OutputEvent::KbLayout(_) => key == "kb_layout"@,
        OutputEvent::Keymode(_) => key == "keymode"@,
        OutputEvent::Scalefactor(_, _) => key == "scale_factor"@,
    }
}

/// A report changes nothing but what it tells of: under every other key the same is
/// read as if it had not come.
pub proof fn reports_change_nothing_else(
    c: CompositorView,
    id: u32,
    event: OutputEvent,
    key: Seq<char>,
)
    requires
        c.outputs.dom().contains(id),
        !tells_of(event, key),
    ensures
        read_after(c, id, event, key) == read_after(c, id, OutputEvent::Frame, key),
{
    let output = c.outputs[id].0;
    let once = after_report(c, id, event);
    let shown = after_report(once, id, OutputEvent::Frame);
    let still = after_report(after_report(c, id, OutputEvent::Frame), id, OutputEvent::Frame);
    let before = in_progress(c, output);
    assert(shown.states[output] == reported(before, event));
    assert(still.states[output] == before);
    assert(shown.layouts == still.layouts && shown.tag_count == still.tag_count);
}

/// The report of a tag says all of that tag and nothing of another, and the mask of the
/// active tags follows. A tag that the output does not have is passed over.
pub proof fn tags_are_reported(
    o: OutputView,
    tag: u32,
    state: u32,
    clients: u32,
    focused: u32,
    i: int,
)
    requires
        0 <= i < o.tag_info.len(),
    ensures
        ({
            let after = reported(o, OutputEvent::Tag { tag, state, clients, focused });
            &&& after.tag_info.len() == o.tag_info.len()
            &&& i == tag ==> after.tag_info[i].state == state
                && after.tag_info[i].clients == clients
                && after.tag_info[i].focused == (focused != 0)
            &&& i != tag ==> after.tag_info[i] == o.tag_info[i]
            &&& tag < o.tag_info.len() ==> after.active_tags == mask_of(
                active_flags(after.tag_info),
            )
            &&& tag >= o.tag_info.len() ==> after == o
        }),
{
}

/// Whether an output is active is what was last reported of it. It has the focus from
/// the moment it is reported active, and an output that is reported inactive takes none.
pub proof fn activity_is_reported(c: CompositorView, id: u32, active: u32)
    requires
        c.outputs.dom().contains(id),
    ensures
        ({
            let after = after_report(c, id, OutputEvent::Active(active));
            &&& after.pending[c.outputs[id].0].active == (active != 0)
            &&& active != 0 ==> after.focused_output == c.outputs[id].0 && after.focused_output_id
                == Some(id)
            &&& active == 0 ==> after.focused_output == c.focused_output && after.focused_output_id
                == c.focused_output_id
            &&& after.states == c.states
        }),
{
}

/// When the focus moves to another output, and only then, one event tells of both, if it
/// is subscribed. Of an output that nothing is known of only the name is told.
pub proof fn moves_of_focus_are_told(c: CompositorView, id: u32, active: u32)
    requires
        c.outputs.dom().contains(id),
    ensures
        active == 0 || c.focused_output == c.outputs[id].0 || !c.subscriptions.contains(
            "output_focus"@,
        ) ==> report_events(c, id, OutputEvent::Active(active)).len() == 0,
        active != 0 && c.focused_output != c.outputs[id].0 && c.subscriptions.contains(
            "output_focus"@,
        ) ==> report_events(c, id, OutputEvent::Active(active)) == seq![
            EventView {
                name: "output_focus"@,
                prev: Some(focus_state(c, c.focused_output)),
                curr: Some(focus_state(c, c.outputs[id].0)),
            },
        ],
{
}

/// What is told of an output that has or had the focus.
pub proof fn focus_is_told(c: CompositorView, output: Seq<char>)
    ensures
        !c.states.dom().contains(output) ==> focus_state(c, output) == map![
            "output"@ => JsonView::Str(output),
        ],
        c.states.dom().contains(output) ==> focus_state(c, output) == map![
            "output"@ => JsonView::Str(output),
            "title"@ => JsonView::Str(c.states[output].title),
            "appid"@ => JsonView::Str(c.states[output].appid),
        ],
{
}

/// A report other than one of activity or the end of a frame brings no event, and a
/// report of an output that is not known does nothing.
pub proof fn other_reports_are_silent(c: CompositorView, id: u32, event: OutputEvent)
    ensures
        event !is Frame && event !is Active ==> report_events(c, id, event).len() == 0,
        !c.outputs.dom().contains(id) ==> report_events(c, id, event).len() == 0 && after_report(
            c,
            id,
            event,
        ) == c,
{
}

/// A plain number under the key of the tags is the mask to show, without toggling, for
/// every number that fits 32 bits. One that does not fit is refused.
pub proof fn plain_masks_are_shown(layouts: Seq<Seq<char>>, m: u32, n: u64)
    requires
        n > u32::MAX,
    ensures
        command_for(layouts, "tags"@, JsonView::Number(NumberView::Int(m as int))) == Ok::<
            MangoCommand,
            Seq<char>,
        >(MangoCommand::SetTags { tagmask: m, toggle: false }),
        command_for(layouts, "tags"@, JsonView::Number(NumberView::Int(n as int))) == Err::<
            MangoCommand,
            Seq<char>,
        >("tags must fit in u32"@),
        command_for(layouts, "client_tags"@, JsonView::Number(NumberView::Int(m as int))) == Ok::<
            MangoCommand,
            Seq<char>,
        >(MangoCommand::SetClientTags { and_tags: 0, xor_tags: m }),
        command_for(layouts, "client_tags"@, JsonView::Number(NumberView::Int(n as int))) == Err::<
            MangoCommand,
            Seq<char>,
        >("client_tags must fit in u32"@),
{
    reveal_strlit("tags");
    reveal_strlit("client_tags");
    reveal_strlit("layout");
    reveal_strlit("layout_name");
    assert("tags"@.len() == 4);
    assert("client_tags"@.len() == 11 && "client_tags"@[0] == 'c');
    assert("layout"@.len() == 6);
    assert("layout_name"@.len() == 11 && "layout_name"@[0] == 'l');
    reveal_strlit(" must fit in u32");
    reveal_strlit("tags must fit in u32");
    reveal_strlit("client_tags must fit in u32");
    assert("tags"@ + " must fit in u32"@ =~= "tags must fit in u32"@);
    assert("client_tags"@ + " must fit in u32"@ =~= "client_tags must fit in u32"@);
}

/// An object under the key of the tags gives the mask under `tagmask`, or under `tags`
/// where there is no `tagmask`. It toggles exactly if its member `toggle` is the boolean
/// true.
pub proof fn objects_may_toggle(
    layouts: Seq<Seq<char>>,
    map: Map<Seq<char>, JsonView>,
    m: u32,
)
    ensures
        map.dom().contains("tagmask"@) && map["tagmask"@] == JsonView::Number(
            NumberView::Int(m as int),
        ) ==> command_for(layouts, "tags"@, JsonView::Object(map)) == Ok::<MangoCommand, Seq<char>>(
            MangoCommand::SetTags {
                tagmask: m,
                toggle: map.dom().contains("toggle"@) && map["toggle"@] == JsonView::Bool(true),
            },
        ),
        !map.dom().contains("tagmask"@) && map.dom().contains("tags"@) && map["tags"@]
            == JsonView::Number(NumberView::Int(m as int)) ==> command_for(
            layouts,
            "tags"@,
            JsonView::Object(map),
        ) == Ok::<MangoCommand, Seq<char>>(
            MangoCommand::SetTags {
                tagmask: m,
                toggle: map.dom().contains("toggle"@) && map["toggle"@] == JsonView::Bool(true),
            },
        ),
        !map.dom().contains("tagmask"@) && !map.dom().contains("tags"@) ==> command_for(
            layouts,
            "tags"@,
            JsonView::Object(map),
        ) == Err::<MangoCommand, Seq<char>>("tags object must include tagmask or tags"@),
{
    reveal_strlit("tags");
    reveal_strlit("client_tags");
    reveal_strlit("layout");
    reveal_strlit("layout_name");
    reveal_strlit("tagmask");
    reveal_strlit("toggle");
    assert("tags"@.len() == 4);
    assert("client_tags"@.len() == 11 && "client_tags"@[0] == 'c');
    assert("layout"@.len() == 6 && "layout"@[0] == 'l');
    assert("layout_name"@.len() == 11 && "layout_name"@[0] == 'l');
    assert("tagmask"@.len() == 7);
    assert("toggle"@.len() == 6 && "toggle"@[0] == 't');
}

/// A value under the key of the tags that gives no mask is refused: what is neither a
/// number that counts nor an object, and an object whose mask is not such a number.
pub proof fn masks_must_be_numbers(
    layouts: Seq<Seq<char>>,
    map: Map<Seq<char>, JsonView>,
    value: JsonView,
    n: u64,
)
    requires
        forall|i: u64| value != JsonView::Number(NumberView::Int(i as int)),
        n > u32::MAX,
    ensures
        value !is Object ==> command_for(layouts, "tags"@, value) == Err::<MangoCommand, Seq<char>>(
            "tags must be a number or object"@,
        ),
        value !is Object ==> command_for(layouts, "client_tags"@, value) == Err::<
            MangoCommand,
            Seq<char>,
        >("client_tags must be a number or object"@),
        command_for(layouts, "tags"@, JsonView::Object(map.insert("tagmask"@, value))) == Err::<
            MangoCommand,
            Seq<char>,
        >("tagmask must be an unsigned integer"@),
        command_for(
            layouts,
            "tags"@,
            JsonView::Object(
                map.insert("tagmask"@, JsonView::Number(NumberView::Int(n as int))),
            ),
        ) == Err::<MangoCommand, Seq<char>>("tagmask must fit in u32"@),
        command_for(layouts, "client_tags"@, JsonView::Object(map.insert("tags"@, value))) == Err::<
            MangoCommand,
            Seq<char>,
        >("client_tags.tags must be an unsigned integer"@),
        command_for(
            layouts,
            "client_tags"@,
            JsonView::Object(map.insert("tags"@, JsonView::Number(NumberView::Int(n as int)))),
        ) == Err::<MangoCommand, Seq<char>>("client_tags.tags must fit in u32"@),
{
    if value is Number && value->Number_0 is Int {
        let k = value->Number_0->Int_0;
        if 0 <= k <= u64::MAX {
            assert(value == JsonView::Number(NumberView::Int((k as u64) as int)));
        }
    }
    reveal_strlit("tags");
    reveal_strlit("client_tags");
    reveal_strlit("layout");
    reveal_strlit("layout_name");
    assert("tags"@.len() == 4);
    assert("client_tags"@.len() == 11 && "client_tags"@[0] == 'c');
    assert("layout"@.len() == 6);
    assert("layout_name"@.len() == 11 && "layout_name"@[0] == 'l');
    reveal_strlit("tagmask");
    reveal_strlit(" must fit in u32");
    reveal_strlit("tagmask must fit in u32");
    assert("tagmask"@ + " must fit in u32"@ =~= "tagmask must fit in u32"@);
    reveal_strlit("tagmask");
    reveal_strlit(" must be an unsigned integer");
    reveal_strlit("tagmask must be an unsigned integer");
    assert("tagmask"@ + " must be an unsigned integer"@ =~= "tagmask must be an unsigned integer"@);
    reveal_strlit("client_tags.tags");
    reveal_strlit(" must fit in u32");
    reveal_strlit("client_tags.tags must fit in u32");
    assert("client_tags.tags"@ + " must fit in u32"@ =~= "client_tags.tags must fit in u32"@);
    reveal_strlit("client_tags.tags");
    reveal_strlit(" must be an unsigned integer");
    reveal_strlit("client_tags.tags must be an unsigned integer");
    assert("client_tags.tags"@ + " must be an unsigned integer"@
        =~= "client_tags.tags must be an unsigned integer"@);
}

/// An object under the key of the focused client's tags gives a mask under `tags`, which
/// stands before a pair of masks under `and_tags` and `xor_tags`.
pub proof fn client_masks_are_set(
    layouts: Seq<Seq<char>>,
    map: Map<Seq<char>, JsonView>,
    a: u32,
    x: u32,
)
    ensures
        map.dom().contains("tags"@) && map["tags"@] == JsonView::Number(NumberView::Int(x as int))
            ==> command_for(layouts, "client_tags"@, JsonView::Object(map)) == Ok::<
            MangoCommand,
            Seq<char>,
        >(MangoCommand::SetClientTags { and_tags: 0, xor_tags: x }),
        !map.dom().contains("tags"@) && map.dom().contains("and_tags"@) && map["and_tags"@]
            == JsonView::Number(NumberView::Int(a as int)) && map.dom().contains("xor_tags"@)
            && map["xor_tags"@] == JsonView::Number(NumberView::Int(x as int)) ==> command_for(
            layouts,
            "client_tags"@,
            JsonView::Object(map),
        ) == Ok::<MangoCommand, Seq<char>>(
            MangoCommand::SetClientTags { and_tags: a, xor_tags: x },
        ),
        !map.dom().contains("tags"@) && !map.dom().contains("and_tags"@) ==> command_for(
            layouts,
            "client_tags"@,
            JsonView::Object(map),
        ) == Err::<MangoCommand, Seq<char>>(
            "client_tags object must include tags or and_tags/xor_tags"@,
        ),
        !map.dom().contains("tags"@) && map.dom().contains("and_tags"@) && map["and_tags"@]
            == JsonView::Number(NumberView::Int(a as int)) && !map.dom().contains("xor_tags"@)
            ==> command_for(layouts, "client_tags"@, JsonView::Object(map)) == Err::<
            MangoCommand,
            Seq<char>,
        >("client_tags object must include tags or and_tags/xor_tags"@),
{
    reveal_strlit("tags");
    reveal_strlit("client_tags");
    reveal_strlit("layout");
    reveal_strlit("layout_name");
    assert("tags"@.len() == 4);
    assert("client_tags"@.len() == 11 && "client_tags"@[0] == 'c');
    assert("layout"@.len() == 6);
    assert("layout_name"@.len() == 11 && "layout_name"@[0] == 'l');
}

/// A pair of masks is refused where one of the two is not a number that fits.
pub proof fn pairs_of_masks_must_be_numbers(
    layouts: Seq<Seq<char>>,
    map: Map<Seq<char>, JsonView>,
    value: JsonView,
    a: u32,
    n: u64,
)
    requires
        !map.dom().contains("tags"@),
        forall|i: u64| value != JsonView::Number(NumberView::Int(i as int)),
        n > u32::MAX,
    ensures
        command_for(layouts, "client_tags"@, JsonView::Object(map.insert("and_tags"@, value)))
            == Err::<MangoCommand, Seq<char>>("and_tags must be an unsigned integer"@),
        command_for(
            layouts,
            "client_tags"@,
            JsonView::Object(
                map.insert("and_tags"@, JsonView::Number(NumberView::Int(n as int))),
            ),
        ) == Err::<MangoCommand, Seq<char>>("and_tags must fit in u32"@),
        command_for(
            layouts,
            "client_tags"@,
            JsonView::Object(
                map.insert("and_tags"@, JsonView::Number(NumberView::Int(a as int))).insert(
                    "xor_tags"@,
                    value,
                ),
            ),
        ) == Err::<MangoCommand, Seq<char>>("xor_tags must be an unsigned integer"@),
        command_for(
            layouts,
            "client_tags"@,
            JsonView::Object(
                map.insert("and_tags"@, JsonView::Number(NumberView::Int(a as int))).insert(
                    "xor_tags"@,
                    JsonView::Number(NumberView::Int(n as int)),
                ),
            ),
        ) == Err::<MangoCommand, Seq<char>>("xor_tags must fit in u32"@),
{
    if value is Number && value->Number_0 is Int {
        let k = value->Number_0->Int_0;
        if 0 <= k <= u64::MAX {
            assert(value == JsonView::Number(NumberView::Int((k as u64) as int)));
        }
    }
    reveal_strlit("tags");
    reveal_strlit("client_tags");
    reveal_strlit("layout");
    reveal_strlit("layout_name");
    reveal_strlit("and_tags");
    reveal_strlit("xor_tags");
    assert("tags"@.len() == 4);
    assert("client_tags"@.len() == 11 && "client_tags"@[0] == 'c');
    assert("layout"@.len() == 6);
    assert("layout_name"@.len() == 11 && "layout_name"@[0] == 'l');
    assert("and_tags"@.len() == 8 && "and_tags"@[0] == 'a');
    assert("xor_tags"@.len() == 8 && "xor_tags"@[0] == 'x');
    reveal_strlit("and_tags");
    reveal_strlit(" must fit in u32");
    reveal_strlit("and_tags must fit in u32");
    assert("and_tags"@ + " must fit in u32"@ =~= "and_tags must fit in u32"@);
    reveal_strlit("and_tags");
    reveal_strlit(" must be an unsigned integer");
    reveal_strlit("and_tags must be an unsigned integer");
    assert("and_tags"@ + " must be an unsigned integer"@
        =~= "and_tags must be an unsigned integer"@);
    reveal_strlit("xor_tags");
    reveal_strlit(" must fit in u32");
    reveal_strlit("xor_tags must fit in u32");
    assert("xor_tags"@ + " must fit in u32"@ =~= "xor_tags must fit in u32"@);
    reveal_strlit("xor_tags");
    reveal_strlit(" must be an unsigned integer");
    reveal_strlit("xor_tags must be an unsigned integer");
    assert("xor_tags"@ + " must be an unsigned integer"@
        =~= "xor_tags must be an unsigned integer"@);
}

/// A layout is chosen by its index, of which the low 32 bits count, or by its name: the
/// first layout that the name fits, and none where it fits none.
pub proof fn layouts_are_chosen(
    layouts: Seq<Seq<char>>,
    n: u64,
    name: Seq<char>,
    i: int,
    value: JsonView,
)
    ensures
        command_for(layouts, "layout"@, JsonView::Number(NumberView::Int(n as int))) == Ok::<
            MangoCommand,
            Seq<char>,
        >(MangoCommand::SetLayout { index: (n as int % 0x1_0000_0000) as u32 }),
        (forall|k: u64| value != JsonView::Number(NumberView::Int(k as int))) ==> command_for(
            layouts,
            "layout"@,
            value,
        ) == Err::<MangoCommand, Seq<char>>("layout must be a number"@),
        0 <= i < layouts.len() && i <= u32::MAX && layout_fits(layouts[i], name) && (forall|j: int|
            0 <= j < i ==> !layout_fits(#[trigger] layouts[j], name)) ==> command_for(
            layouts,
            "layout_name"@,
            JsonView::Str(name),
        ) == Ok::<MangoCommand, Seq<char>>(MangoCommand::SetLayout { index: i as u32 }),
        (forall|j: int| 0 <= j < layouts.len() ==> !layout_fits(#[trigger] layouts[j], name))
            ==> command_for(layouts, "layout_name"@, JsonView::Str(name)) == Err::<
            MangoCommand,
            Seq<char>,
        >("Layout '"@ + name + "' not found"@),
        value !is Str ==> command_for(layouts, "layout_name"@, value) == Err::<
            MangoCommand,
            Seq<char>,
        >("layout_name must be a string"@),
{
    reveal_strlit("tags");
    reveal_strlit("client_tags");
    reveal_strlit("layout");
    reveal_strlit("layout_name");
    assert("tags"@.len() == 4);
    assert("client_tags"@.len() == 11 && "client_tags"@[0] == 'c');
    assert("layout"@.len() == 6);
    assert("layout_name"@.len() == 11 && "layout_name"@[0] == 'l');
    if value is Number && value->Number_0 is Int {
        let k = value->Number_0->Int_0;
        if 0 <= k <= u64::MAX {
            assert(value == JsonView::Number(NumberView::Int((k as u64) as int)));
        }
    }
    if 0 <= i < layouts.len() && i <= u32::MAX && layout_fits(layouts[i], name) && (forall|j: int|
        0 <= j < i ==> !layout_fits(#[trigger] layouts[j], name)) {
        lemma_layout_index(layouts, name, 0, i);
        assert(i % 0x1_0000_0000 == i);
    }
    if forall|j: int| 0 <= j < layouts.len() ==> !layout_fits(#[trigger] layouts[j], name) {
        lemma_layout_missing(layouts, name, 0);
    }
}

proof fn lemma_layout_index(layouts: Seq<Seq<char>>, name: Seq<char>, from: int, i: int)
    requires
        0 <= from <= i < layouts.len(),
        layout_fits(layouts[i], name),
        forall|j: int| from <= j < i ==> !layout_fits(#[trigger] layouts[j], name),
    ensures
        layout_index(layouts, name, from) == Some(i),
    decreases i - from,
{
    if from < i {
        assert(!layout_fits(layouts[from], name));
        lemma_layout_index(layouts, name, from + 1, i);
    }
}

proof fn lemma_layout_missing(layouts: Seq<Seq<char>>, name: Seq<char>, from: int)
    requires
        0 <= from <= layouts.len(),
        forall|j: int| from <= j < layouts.len() ==> !layout_fits(#[trigger] layouts[j], name),
    ensures
        layout_index(layouts, name, from) is None,
    decreases layouts.len() - from,
{
    if from < layouts.len() {
        lemma_layout_missing(layouts, name, from + 1);
    }
}

/// No other key can be set.
pub proof fn other_keys_cannot_be_set(layouts: Seq<Seq<char>>, key: Seq<char>, value: JsonView)
    requires
        key != "tags"@,
        key != "client_tags"@,
        key != "layout"@,
        key != "layout_name"@,
    ensures
        command_for(layouts, key, value) == Err::<MangoCommand, Seq<char>>(
            "Cannot set '"@ + key + "' (read-only or unknown)"@,
        ),
{
}

/// Each key of an output is read as the value that is known of it, and no other key is
/// known.
pub proof fn keys_are_read(c: CompositorView, o: OutputView, key: Seq<char>, i: int)
    ensures
        output_value(c, o, "layout"@) == Ok::<JsonView, Seq<char>>(
            JsonView::Number(NumberView::Int(o.layout_idx as int)),
        ),
        output_value(c, o, "layout_name"@) == Ok::<JsonView, Seq<char>>(
            JsonView::Str(layout_name_of(layout_label_of(o, c.layouts))),
        ),
        output_value(c, o, "layout_symbol"@) == Ok::<JsonView, Seq<char>>(
            JsonView::Str(o.layout_symbol),
        ),
        output_value(c, o, "tags"@) == Ok::<JsonView, Seq<char>>(
            JsonView::Number(NumberView::Int(o.active_tags as int)),
        ),
        output_value(c, o, "client_tags"@) == Ok::<JsonView, Seq<char>>(
            JsonView::Number(NumberView::Int(mask_of(focused_flags(o.tag_info)) as int)),
        ),
        output_value(c, o, "tag_count"@) == Ok::<JsonView, Seq<char>>(
            JsonView::Number(NumberView::Int(c.tag_count as int)),
        ),
        output_value(c, o, "tag_info"@) == Ok::<JsonView, Seq<char>>(
            tags_listing(o.tag_info),
        ),
        output_value(c, o, "occupied_tags"@) == Ok::<JsonView, Seq<char>>(
            JsonView::Number(NumberView::Int(mask_of(occupied_flags(o.tag_info)) as int)),
        ),
        output_value(c, o, "urgent_tags"@) == Ok::<JsonView, Seq<char>>(
            JsonView::Number(NumberView::Int(mask_of(urgent_flags(o.tag_info)) as int)),
        ),
        output_value(c, o, "client_count"@) == Ok::<JsonView, Seq<char>>(
            JsonView::Number(NumberView::Int(clients_total(o.tag_info) as int)),
        ),
        output_value(c, o, "title"@) == Ok::<JsonView, Seq<char>>(
            JsonView::Str(o.title),
        ),
        output_value(c, o, "appid"@) == Ok::<JsonView, Seq<char>>(
            JsonView::Str(o.appid),
        ),
        output_value(c, o, "output"@) == Ok::<JsonView, Seq<char>>(
            JsonView::Str(c.focused_output),
        ),
        output_value(c, o, "fullscreen"@) == Ok::<JsonView, Seq<char>>(
            JsonView::Bool(o.fullscreen),
        ),
        output_value(c, o, "floating"@) == Ok::<JsonView, Seq<char>>(
            JsonView::Bool(o.floating),
        ),
        output_value(c, o, "geometry"@) == Ok::<JsonView, Seq<char>>(
            geometry_of(o),
        ),
        output_value(c, o, "x"@) == Ok::<JsonView, Seq<char>>(
            JsonView::Number(NumberView::Int(o.x as int)),
        ),
        output_value(c, o, "y"@) == Ok::<JsonView, Seq<char>>(
            JsonView::Number(NumberView::Int(o.y as int)),
        ),
        output_value(c, o, "width"@) == Ok::<JsonView, Seq<char>>(
            JsonView::Number(NumberView::Int(o.width as int)),
        ),
        output_value(c, o, "height"@) == Ok::<JsonView, Seq<char>>(
            JsonView::Number(NumberView::Int(o.height as int)),
        ),
        output_value(c, o, "last_layer"@) == Ok::<JsonView, Seq<char>>(
            JsonView::Str(o.last_layer),
        ),
        output_value(c, o, "kb_layout"@) == Ok::<JsonView, Seq<char>>(
            JsonView::Str(o.kb_layout),
        ),
        output_value(c, o, "keymode"@) == Ok::<JsonView, Seq<char>>(
            JsonView::Str(o.keymode),
        ),
        output_value(c, o, "scale_factor"@) == Ok::<JsonView, Seq<char>>(
            JsonView::Number(o.scale),
        ),
        output_value(c, o, "layouts"@) is Ok,
        output_value(c, o, "layouts"@)->Ok_0 is Array,
        output_value(c, o, "layouts"@)->Ok_0->Array_0.len() == c.layouts.len(),
        0 <= i < c.layouts.len() ==> output_value(c, o, "layouts"@)->Ok_0->Array_0[i]
            == JsonView::Str(layout_name_of(c.layouts[i])),
        key != "layout"@ && key != "layout_name"@ && key != "layout_symbol"@ && key != "layouts"@
            && key != "tags"@ && key != "client_tags"@ && key != "tag_count"@ && key != "tag_info"@
            && key != "occupied_tags"@ && key != "urgent_tags"@ && key != "client_count"@
            && key != "title"@ && key != "appid"@ && key != "output"@ && key != "fullscreen"@
            && key != "floating"@ && key != "geometry"@ && key != "x"@ && key != "y"@
            && key != "width"@ && key != "height"@ && key != "last_layer"@ && key != "kb_layout"@
            && key != "keymode"@ && key != "scale_factor"@ ==> output_value(c, o, key) == Err::<
            JsonView,
            Seq<char>,
        >("Unknown key: "@ + key),
{
    reveal_strlit("layout");
    reveal_strlit("layout_name");
    reveal_strlit("layout_symbol");
    reveal_strlit("layouts");
    reveal_strlit("tags");
    reveal_strlit("client_tags");
    reveal_strlit("tag_count");
    reveal_strlit("tag_info");
    reveal_strlit("occupied_tags");
    reveal_strlit("urgent_tags");
    reveal_strlit("client_count");
    reveal_strlit("title");
    reveal_strlit("appid");
    reveal_strlit("output");
    reveal_strlit("fullscreen");
    reveal_strlit("floating");
    reveal_strlit("geometry");
    reveal_strlit("x");
    reveal_strlit("y");
    reveal_strlit("width");
    reveal_strlit("height");
    reveal_strlit("last_layer");
    reveal_strlit("kb_layout");
    reveal_strlit("keymode");
    reveal_strlit("scale_factor");
    assert("layout"@.len() == 6 && "layout"@[0] == 'l');
    assert("layout_name"@.len() == 11 && "layout_name"@[0] == 'l');
    assert("layout_symbol"@.len() == 13 && "layout_symbol"@[0] == 'l');
    assert("layouts"@.len() == 7 && "layouts"@[0] == 'l');
    assert("tags"@.len() == 4);
    assert("client_tags"@.len() == 11 && "client_tags"@[0] == 'c');
    assert("tag_count"@.len() == 9 && "tag_count"@[0] == 't');
    assert("tag_info"@.len() == 8 && "tag_info"@[0] == 't');
    assert("occupied_tags"@.len() == 13 && "occupied_tags"@[0] == 'o');
    assert("urgent_tags"@.len() == 11 && "urgent_tags"@[0] == 'u');
    assert("client_count"@.len() == 12 && "client_count"@[0] == 'c');
    assert("title"@.len() == 5 && "title"@[0] == 't');
    assert("appid"@.len() == 5 && "appid"@[0] == 'a');
    assert("output"@.len() == 6 && "output"@[0] == 'o');
    assert("fullscreen"@.len() == 10 && "fullscreen"@[0] == 'f');
    assert("floating"@.len() == 8 && "floating"@[0] == 'f');
    assert("geometry"@.len() == 8 && "geometry"@[0] == 'g');
    assert("x"@.len() == 1 && "x"@[0] == 'x');
    assert("y"@.len() == 1 && "y"@[0] == 'y');
    assert("width"@.len() == 5 && "width"@[0] == 'w');
    assert("height"@.len() == 6 && "height"@[0] == 'h');
    assert("last_layer"@.len() == 10 && "last_layer"@[0] == 'l');
    assert("kb_layout"@.len() == 9 && "kb_layout"@[0] == 'k');
    assert("keymode"@.len() == 7 && "keymode"@[0] == 'k');
    assert("scale_factor"@.len() == 12 && "scale_factor"@[0] == 's');
}

/// Values are read of the output that has the focus, whatever the other outputs are, and
/// none is read where nothing is known of it.
pub proof fn the_focused_output_is_read(
    c: CompositorView,
    key: Seq<char>,
    o: OutputView,
    r: Result<JsonView, Seq<char>>,
)
    ensures
        !c.states.dom().contains(c.focused_output) ==> (get_gives(c, key, r) <==> r == Err::<
            JsonView,
            Seq<char>,
        >("No focused output"@)),
        key != "outputs"@ ==> (get_gives(
            CompositorView { states: c.states.insert(c.focused_output, o), ..c },
            key,
            r,
        ) <==> r == output_value(c, o, key)),
{
}

/// The outputs are listed by name, each one that is known once, in ascending order.
pub proof fn all_outputs_are_listed(
    c: CompositorView,
    r: Result<JsonView, Seq<char>>,
    name: Seq<char>,
)
    requires
        c.states.dom().contains(c.focused_output),
        get_gives(c, "outputs"@, r),
    ensures
        r is Ok,
        r->Ok_0 is Array,
        (exists|i: int|
            0 <= i < r->Ok_0->Array_0.len() && #[trigger] r->Ok_0->Array_0[i]
                == JsonView::Str(name))
            <==> c.states.dom().contains(name),
        forall|i: int|
            0 <= i < r->Ok_0->Array_0.len() ==> (#[trigger] r->Ok_0->Array_0[i]) is Str,
        forall|i: int, j: int|
            0 <= i < j < r->Ok_0->Array_0.len() ==> #[trigger] r->Ok_0->Array_0[i]
                != #[trigger] r->Ok_0->Array_0[j] && lex_less(
                r->Ok_0->Array_0[i]->Str_0,
                r->Ok_0->Array_0[j]->Str_0,
            ),
{
    let names = choose|names: Seq<Seq<char>>|
        ascending(names) && names.to_set() == c.states.dom() && r == Ok::<JsonView, Seq<char>>(
            #[trigger] text_array(names),
        );
    let listed = r->Ok_0->Array_0;
    assert(listed.len() == names.len());
    assert forall|i: int| 0 <= i < listed.len() implies #[trigger] listed[i] == JsonView::Str(
        names[i],
    ) by {}
    if c.states.dom().contains(name) {
        assert(names.to_set().contains(name));
        let i = choose|i: int| 0 <= i < names.len() && names[i] == name;
        assert(listed[i] == JsonView::Str(name));
    }
    if exists|i: int| 0 <= i < listed.len() && #[trigger] listed[i] == JsonView::Str(name) {
        let i = choose|i: int| 0 <= i < listed.len() && #[trigger] listed[i] == JsonView::Str(name);
        assert(names[i] == name);
        assert(names.to_set().contains(name));
    }
    assert forall|i: int, j: int| 0 <= i < j < listed.len() implies #[trigger] listed[i]
        != #[trigger] listed[j] && lex_less(names[i], names[j]) by {
        lex_less_total(names[i], names[j]);
    }
}

/// A manager is bound once it is announced, in the second version at most, and with it
/// every output that was waiting. An output is bound in the fourth version at most, with
/// its status if there is a manager. Nothing else is bound.
pub proof fn globals_are_bound(c: CompositorView, id: u32, interface: Seq<char>, version: u32)
    ensures
        global_action(c, "zdwl_ipc_manager_v2"@, version) == (RegistryActionView::BindManager {
            version: if version > 2 {
                2u32
            } else {
                version
            },
            outputs: c.pending_outputs,
        }),
        after_global(c, id, "zdwl_ipc_manager_v2"@).has_manager,
        after_global(c, id, "zdwl_ipc_manager_v2"@).pending_outputs.len() == 0,
        after_global(c, id, "zdwl_ipc_manager_v2"@).states == c.states,
        global_action(c, "wl_output"@, version) == (RegistryActionView::BindOutput {
            version: if version > 4 {
                4u32
            } else {
                version
            },
            with_status: c.has_manager,
        }),
        after_global(c, id, "wl_output"@).outputs == c.outputs.insert(
            id,
            ("output-"@ + decimal(id as nat), c.has_manager),
        ),
        c.has_manager ==> after_global(c, id, "wl_output"@).pending_outputs == c.pending_outputs,
        !c.has_manager ==> after_global(c, id, "wl_output"@).pending_outputs
            == c.pending_outputs.push(id),
        after_global(c, id, "wl_output"@).has_manager == c.has_manager,
        after_global(c, id, "wl_output"@).states == c.states,
        interface != "zdwl_ipc_manager_v2"@ && interface != "wl_output"@ ==> after_global(
            c,
            id,
            interface,
        ) == c && global_action(c, interface, version) is Nothing,
{
    reveal_strlit("zdwl_ipc_manager_v2");
    reveal_strlit("wl_output");
    assert("zdwl_ipc_manager_v2"@.len() == 19 && "wl_output"@.len() == 9);
}

/// With the manager every output that was waiting has its status requested, and no other
/// output changes.
pub proof fn waiting_outputs_are_bound(c: CompositorView, id: u32, other: u32)
    ensures
        c.pending_outputs.contains(other) ==> after_global(
            c,
            id,
            "zdwl_ipc_manager_v2"@,
        ).outputs.dom().contains(other) && after_global(
            c,
            id,
            "zdwl_ipc_manager_v2"@,
        ).outputs[other] == ("output-"@ + decimal(other as nat), true),
        !c.pending_outputs.contains(other) ==> (after_global(
            c,
            id,
            "zdwl_ipc_manager_v2"@,
        ).outputs.dom().contains(other) <==> c.outputs.dom().contains(other)),
        !c.pending_outputs.contains(other) && c.outputs.dom().contains(other) ==> after_global(
            c,
            id,
            "zdwl_ipc_manager_v2"@,
        ).outputs[other] == c.outputs[other],
{
    lemma_all_bound(c.outputs, c.pending_outputs, other);
}

proof fn lemma_all_bound(outputs: Map<u32, (Seq<char>, bool)>, ids: Seq<u32>, id: u32)
    ensures
        ids.contains(id) ==> all_bound(outputs, ids).dom().contains(id) && all_bound(outputs,
            ids)[id]
            == (placeholder(id), true),
        !ids.contains(id) ==> (all_bound(outputs, ids).dom().contains(id)
            <==> outputs.dom().contains(id)),
        !ids.contains(id) && outputs.dom().contains(id) ==> all_bound(outputs, ids)[id]
            == outputs[id],
    decreases ids.len(),
{
    if ids.len() > 0 {
        let fewer = ids.drop_last();
        lemma_all_bound(outputs, fewer, id);
        if ids.contains(id) && ids.last() != id {
            let i = choose|i: int| 0 <= i < ids.len() && ids[i] == id;
            assert(fewer[i] == id);
        }
        if fewer.contains(id) {
            let i = choose|i: int| 0 <= i < fewer.len() && fewer[i] == id;
            assert(ids[i] == id);
        }
        assert(ids[ids.len() - 1] == ids.last());
    }
}

/// An output that is gone is forgotten with its state. Every other output stays as it is.
pub proof fn removed_outputs_are_forgotten(c: CompositorView, id: u32, other: u32)
    requires
        other != id,
    ensures
        ({
            let after = after_global_remove(c, id);
            &&& !after.outputs.dom().contains(id)
            &&& c.outputs.dom().contains(id) ==> !after.states.dom().contains(c.outputs[id].0)
            &&& after.outputs.dom().contains(other) == c.outputs.dom().contains(other)
            &&& after.outputs.dom().contains(other) ==> after.outputs[other] == c.outputs[other]
            &&& c.outputs.dom().contains(id) && c.outputs.dom().contains(other)
                && c.outputs[other].0 != c.outputs[id].0 && c.states.dom().contains(
                c.outputs[other].0,
            ) ==> after.states.dom().contains(c.outputs[other].0)
                && after.states[c.outputs[other].0] == c.states[c.outputs[other].0]
            &&& !c.outputs.dom().contains(id) ==> after == c
            &&& after.focused_output == c.focused_output && after.focused_output_id
                == c.focused_output_id
        }),
{
}

/// A known output takes the name it is given, and is bound from then on if there is a
/// manager. Its state and what was reported of it go with it, and it has an empty state
/// with all tags if it had none. The first output that is named has the focus.
pub proof fn outputs_take_their_names(c: CompositorView, id: u32, name: Seq<char>)
    ensures
        ({
            let after = after_name(c, id, name);
            let was = c.outputs[id].0;
            &&& c.outputs.dom().contains(id) ==> after.outputs == c.outputs.insert(
                id,
                (name, c.outputs[id].1 || c.has_manager),
            )
            &&& !c.outputs.dom().contains(id) ==> after.outputs == c.outputs
            &&& after.states.dom().contains(name)
            &&& c.outputs.dom().contains(id) && was != name && c.states.dom().contains(was)
                ==> after.states[name] == c.states[was] && !after.states.dom().contains(was)
            &&& c.outputs.dom().contains(id) && was != name && c.pending.dom().contains(was)
                ==> after.pending.dom().contains(name) && after.pending[name] == c.pending[was]
                && !after.pending.dom().contains(was)
            &&& (!c.outputs.dom().contains(id) || was == name || !c.states.dom().contains(was))
                && c.states.dom().contains(name) ==> after.states[name] == c.states[name]
            &&& (!c.outputs.dom().contains(id) || !c.states.dom().contains(was))
                && !c.states.dom().contains(name) ==> after.states[name].tag_info.len()
                == c.tag_count && after.states[name] == (OutputView {
                tag_info: after.states[name].tag_info,
                ..blank_output()
            }) && forall|i: int|
                0 <= i < c.tag_count ==> (#[trigger] after.states[name].tag_info[i]) == (TagInfo {
                    state: 0,
                    clients: 0,
                    focused: false,
                })
            &&& c.focused_output.len() == 0 ==> after.focused_output == name
                && after.focused_output_id == Some(id)
            &&& c.focused_output.len() > 0 ==> after.focused_output == c.focused_output
                && after.focused_output_id == c.focused_output_id
            &&& needs_status(c, id) <==> c.has_manager && c.outputs.dom().contains(id)
                && !c.outputs[id].1
            &&& !needs_status(after, id)
        }),
{
}

/// Naming an output leaves every other name as it is.
pub proof fn naming_leaves_others(c: CompositorView, id: u32, name: Seq<char>, other: Seq<char>)
    requires
        other != name,
        c.outputs.dom().contains(id) ==> other != c.outputs[id].0,
    ensures
        after_name(c, id, name).states.dom().contains(other) == c.states.dom().contains(other),
        c.states.dom().contains(other) ==> after_name(c, id, name).states[other]
            == c.states[other],
        after_name(c, id, name).pending.dom().contains(other) == c.pending.dom().contains(other),
        c.pending.dom().contains(other) ==> after_name(c, id, name).pending[other]
            == c.pending[other],
{
}

/// When the number of tags is announced every output has so many: those that it had
/// first, and empty ones for the rest. A layout that is announced comes after the others.
pub proof fn announcements_are_kept(
    c: CompositorView,
    amount: u32,
    name: Seq<char>,
    layout: Seq<char>,
    i: int,
)
    ensures
        ({
            let after = after_tags(c, amount);
            &&& after.tag_count == amount
            &&& after.states.dom() == c.states.dom()
            &&& c.states.dom().contains(name) ==> {
                &&& after.states[name] == (OutputView {
                    tag_info: after.states[name].tag_info,
                    ..c.states[name]
                })
                &&& after.states[name].tag_info.len() == amount
                &&& 0 <= i < amount && i < c.states[name].tag_info.len()
                    ==> after.states[name].tag_info[i] == c.states[name].tag_info[i]
                &&& c.states[name].tag_info.len() <= i < amount ==> after.states[name].tag_info[i]
                    == (TagInfo { state: 0, clients: 0, focused: false })
            }
            &&& after.outputs == c.outputs && after.pending == c.pending && after.layouts
                == c.layouts
        }),
        after_layout(c, layout).layouts.len() == c.layouts.len() + 1,
        after_layout(c, layout).layouts[c.layouts.len() as int] == layout,
        0 <= i < c.layouts.len() ==> after_layout(c, layout).layouts[i] == c.layouts[i],
        after_layout(c, layout).states == c.states,
        after_layout(c, layout).tag_count == c.tag_count,
{
    assert(after_tags(c, amount).states.dom() =~= c.states.dom());
}

/// A command goes to the output that has the focus if its status was requested, and else
/// nowhere.
pub proof fn commands_go_to_the_focus(c: CompositorView, id: u32)
    ensures
        command_target_of(c) == Ok::<u32, Seq<char>>(id) <==> c.focused_output_id == Some(id)
            && c.outputs.dom().contains(id) && c.outputs[id].1,
        c.focused_output_id is None ==> command_target_of(c) == Err::<u32, Seq<char>>(
            "No focused output"@,
        ),
        c.focused_output_id == Some(id) && !(c.outputs.dom().contains(id) && c.outputs[id].1)
            ==> command_target_of(c) == Err::<u32, Seq<char>>(
            "No IPC output available for focused output"@,
        ),
{
}

/// A compositor that nothing was announced of has no output, no layout and no tag, no
/// focus and no manager.
pub proof fn nothing_is_known_at_first(subscriptions: Set<Seq<char>>, id: u32, name: Seq<char>)
    ensures
        ({
            let c = nothing_announced(subscriptions);
            &&& !c.has_manager
            &&& !c.outputs.dom().contains(id)
            &&& !c.states.dom().contains(name) && !c.pending.dom().contains(name)
            &&& c.pending_outputs.len() == 0 && c.layouts.len() == 0
            &&& c.tag_count == 0
            &&& c.focused_output.len() == 0 && c.focused_output_id is None
            &&& c.subscriptions == subscriptions
        }),
{
    reveal_strlit("");
}

/// A report is out of range only if it shows a tag that a mask has no bit for, and a key
/// only if what it counts does not fit 32 bits.
pub proof fn what_is_out_of_range(o: OutputView, event: OutputEvent, key: Seq<char>)
    ensures
        !tag_fits(o, event) <==> (event matches OutputEvent::Tag { tag, state, .. } && state == 1
            && 32 <= tag < o.tag_info.len()),
        value_fits(o, "client_tags"@) == fits_mask(focused_flags(o.tag_info)),
        value_fits(o, "occupied_tags"@) == fits_mask(occupied_flags(o.tag_info)),
        value_fits(o, "urgent_tags"@) == fits_mask(urgent_flags(o.tag_info)),
        value_fits(o, "client_count"@) == (clients_total(o.tag_info) < 0x1_0000_0000),
        key != "client_tags"@ && key != "occupied_tags"@ && key != "urgent_tags"@ && key
            != "client_count"@ ==> value_fits(o, key),
{
    reveal_strlit("client_tags");
    reveal_strlit("occupied_tags");
    reveal_strlit("urgent_tags");
    reveal_strlit("client_count");
    assert("client_tags"@.len() == 11 && "client_tags"@[0] == 'c');
    assert("occupied_tags"@.len() == 13);
    assert("urgent_tags"@.len() == 11 && "urgent_tags"@[0] == 'u');
    assert("client_count"@.len() == 12);
}

/// The place of an event among those of one frame.
pub open spec fn place_in_frame(name: Seq<char>) -> int {
    if name == "tag_change"@ {
        0
    } else if name == "layout_change"@ {
        1
    } else if name == "focus_change"@ {
        2
    } else if name == "window_state_change"@ {
        3
    } else if name == "geometry_change"@ {
        4
    } else if name == "layer_change"@ {
        5
    } else if name == "keyboard_layout_change"@ {
        6
    } else if name == "keymode_change"@ {
        7
    } else {
        8
    }
}

spec fn in_places(events: Seq<EventView>, places: int) -> bool {
    &&& forall|i: int|
        0 <= i < events.len() ==> 0 <= place_in_frame((#[trigger] events[i]).name) < places
    &&& forall|i: int, j: int|
        0 <= i < j < events.len() ==> place_in_frame((#[trigger] events[i]).name) < place_in_frame(
            (#[trigger] events[j]).name,
        )
}

proof fn lemma_places()
    ensures
        place_in_frame("tag_change"@) == 0,
        place_in_frame("layout_change"@) == 1,
        place_in_frame("focus_change"@) == 2,
        place_in_frame("window_state_change"@) == 3,
        place_in_frame("geometry_change"@) == 4,
        place_in_frame("layer_change"@) == 5,
        place_in_frame("keyboard_layout_change"@) == 6,
        place_in_frame("keymode_change"@) == 7,
        place_in_frame("scale_factor_change"@) == 8,
{
    reveal_strlit("tag_change");
    reveal_strlit("layout_change");
    reveal_strlit("focus_change");
    reveal_strlit("window_state_change");
    reveal_strlit("geometry_change");
    reveal_strlit("layer_change");
    reveal_strlit("keyboard_layout_change");
    reveal_strlit("keymode_change");
    reveal_strlit("scale_factor_change");
    assert("tag_change"@.len() == 10);
    assert("layout_change"@.len() == 13);
    assert("focus_change"@.len() == 12 && "focus_change"@[0] == 'f');
    assert("window_state_change"@.len() == 19 && "window_state_change"@[0] == 'w');
    assert("geometry_change"@.len() == 15);
    assert("layer_change"@.len() == 12 && "layer_change"@[0] == 'l');
    assert("keyboard_layout_change"@.len() == 22);
    assert("keymode_change"@.len() == 14);
    assert("scale_factor_change"@.len() == 19 && "scale_factor_change"@[0] == 's');
}

proof fn lemma_in_places(
    events: Seq<EventView>,
    subs: Set<Seq<char>>,
    changed: bool,
    name: Seq<char>,
    prev: Map<Seq<char>, JsonView>,
    curr: Map<Seq<char>, JsonView>,
)
    requires
        in_places(events, place_in_frame(name)),
        place_in_frame(name) >= 0,
    ensures
        in_places(emitted(events, subs, changed, name, prev, curr), place_in_frame(name) + 1),
{
}

/// The events of one frame come in a fixed order, and no two of one name.
pub proof fn frames_tell_in_order(
    prev: OutputView,
    curr: OutputView,
    output: Seq<char>,
    layouts: Seq<Seq<char>>,
    subs: Set<Seq<char>>,
    i: int,
    j: int,
)
    requires
        0 <= i < j < frame_events(prev, curr, output, layouts, subs).len(),
    ensures
        place_in_frame(frame_events(prev, curr, output, layouts, subs)[i].name) < place_in_frame(
            frame_events(prev, curr, output, layouts, subs)[j].name,
        ),
{
    lemma_places();
    let e0 = Seq::<EventView>::empty();
    assert(in_places(e0, 0));
    let e1 = emitted(
        e0,
        subs,
        prev.active_tags != curr.active_tags,
        "tag_change"@,
        tag_fields(prev, output),
        tag_fields(curr, output),
    );
    lemma_in_places(
        e0,
        subs,
        prev.active_tags != curr.active_tags,
        "tag_change"@,
        tag_fields(prev, output),
        tag_fields(curr, output),
    );
    let e2 = emitted(
        e1,
        subs,
        prev.layout_idx != curr.layout_idx || prev.layout_symbol != curr.layout_symbol,
        "layout_change"@,
        layout_fields(prev, output, layouts),
        layout_fields(curr, output, layouts),
    );
    lemma_in_places(
        e1,
        subs,
        prev.layout_idx != curr.layout_idx || prev.layout_symbol != curr.layout_symbol,
        "layout_change"@,
        layout_fields(prev, output, layouts),
        layout_fields(curr, output, layouts),
    );
    let e3 = emitted(
        e2,
        subs,
        prev.title != curr.title || prev.appid != curr.appid,
        "focus_change"@,
        window_fields(prev),
        window_fields(curr),
    );
    lemma_in_places(
        e2,
        subs,
        prev.title != curr.title || prev.appid != curr.appid,
        "focus_change"@,
        window_fields(prev),
        window_fields(curr),
    );
    let e4 = emitted(
        e3,
        subs,
        prev.fullscreen != curr.fullscreen || prev.floating != curr.floating,
        "window_state_change"@,
        window_state_fields(prev, output),
        window_state_fields(curr, output),
    );
    lemma_in_places(
        e3,
        subs,
        prev.fullscreen != curr.fullscreen || prev.floating != curr.floating,
        "window_state_change"@,
        window_state_fields(prev, output),
        window_state_fields(curr, output),
    );
    let e5 = emitted(
        e4,
        subs,
        prev.x != curr.x || prev.y != curr.y || prev.width != curr.width
            || prev.height != curr.height,
        "geometry_change"@,
        geometry_fields(prev, output),
        geometry_fields(curr, output),
    );
    lemma_in_places(
        e4,
        subs,
        prev.x != curr.x || prev.y != curr.y || prev.width != curr.width
            || prev.height != curr.height,
        "geometry_change"@,
        geometry_fields(prev, output),
        geometry_fields(curr, output),
    );
    let e6 = emitted(
        e5,
        subs,
        prev.last_layer != curr.last_layer,
        "layer_change"@,
        text_fields("last_layer"@, prev.last_layer, output),
        text_fields("last_layer"@, curr.last_layer, output),
    );
    lemma_in_places(
        e5,
        subs,
        prev.last_layer != curr.last_layer,
        "layer_change"@,
        text_fields("last_layer"@, prev.last_layer, output),
        text_fields("last_layer"@, curr.last_layer, output),
    );
    let e7 = emitted(
        e6,
        subs,
        prev.kb_layout != curr.kb_layout,
        "keyboard_layout_change"@,
        text_fields("kb_layout"@, prev.kb_layout, output),
        text_fields("kb_layout"@, curr.kb_layout, output),
    );
    lemma_in_places(
        e6,
        subs,
        prev.kb_layout != curr.kb_layout,
        "keyboard_layout_change"@,
        text_fields("kb_layout"@, prev.kb_layout, output),
        text_fields("kb_layout"@, curr.kb_layout, output),
    );
    let e8 = emitted(
        e7,
        subs,
        prev.keymode != curr.keymode,
        "keymode_change"@,
        text_fields("keymode"@, prev.keymode, output),
        text_fields("keymode"@, curr.keymode, output),
    );
    lemma_in_places(
        e7,
        subs,
        prev.keymode != curr.keymode,
        "keymode_change"@,
        text_fields("keymode"@, prev.keymode, output),
        text_fields("keymode"@, curr.keymode, output),
    );
    let e9 = emitted(
        e8,
        subs,
        prev.scale_factor != curr.scale_factor,
        "scale_factor_change"@,
        scale_fields(prev, output),
        scale_fields(curr, output),
    );
    lemma_in_places(
        e8,
        subs,
        prev.scale_factor != curr.scale_factor,
        "scale_factor_change"@,
        scale_fields(prev, output),
        scale_fields(curr, output),
    );
    assert(in_places(frame_events(prev, curr, output, layouts, subs), 9));
}

/// A report is kept with the output it is of: what is known and was reported of every
/// other output stays, and so does all that the compositor announced.
pub proof fn reports_leave_other_outputs(
    c: CompositorView,
    id: u32,
    event: OutputEvent,
    other: Seq<char>,
)
    requires
        c.outputs.dom().contains(id),
        other != c.outputs[id].0,
    ensures
        ({
            let after = after_report(c, id, event);
            &&& after.states.dom().contains(other) == c.states.dom().contains(other)
            &&& c.states.dom().contains(other) ==> after.states[other] == c.states[other]
            &&& after.pending.dom().contains(other) == c.pending.dom().contains(other)
            &&& c.pending.dom().contains(other) ==> after.pending[other] == c.pending[other]
            &&& event is Frame ==> !after.pending.dom().contains(c.outputs[id].0)
            &&& event !is Frame ==> after.pending.dom().contains(c.outputs[id].0)
            &&& after == (CompositorView {
                states: after.states,
                pending: after.pending,
                focused_output: after.focused_output,
                focused_output_id: after.focused_output_id,
                ..c
            })
            &&& event !is Active ==> after.focused_output == c.focused_output
                && after.focused_output_id == c.focused_output_id
        }),
{
}

/// What is announced changes nothing but what it is about.
pub proof fn announcements_change_nothing_else(
    c: CompositorView,
    id: u32,
    amount: u32,
    text: Seq<char>,
)
    ensures
        after_global(c, id, text) == (CompositorView {
            has_manager: after_global(c, id, text).has_manager,
            outputs: after_global(c, id, text).outputs,
            pending_outputs: after_global(c, id, text).pending_outputs,
            ..c
        }),
        c.has_manager ==> after_global(c, id, text).has_manager,
        after_global_remove(c, id) == (CompositorView {
            outputs: after_global_remove(c, id).outputs,
            states: after_global_remove(c, id).states,
            ..c
        }),
        after_name(c, id, text) == (CompositorView {
            outputs: after_name(c, id, text).outputs,
            states: after_name(c, id, text).states,
            pending: after_name(c, id, text).pending,
            focused_output: after_name(c, id, text).focused_output,
            focused_output_id: after_name(c, id, text).focused_output_id,
            ..c
        }),
        after_tags(c, amount) == (CompositorView {
            tag_count: amount,
            states: after_tags(c, amount).states,
            ..c
        }),
        after_layout(c, text) == (CompositorView {
            layouts: after_layout(c, text).layouts,
            ..c
        }),
{
}

/// A poll that found events leads to their dispatch. One that failed ends the loop unless
/// it was interrupted, and one that found nothing does not.
pub proof fn polls_lead_on(ret: i32, interrupted: bool, r: PollStep)
    requires
        call_ensures(poll_step, (ret, interrupted), r),
    ensures
        r == PollStep::Dispatch <==> ret > 0,
        r == PollStep::Fail <==> ret < 0 && !interrupted,
        r == PollStep::Continue <==> ret == 0 || (ret < 0 && interrupted),
{
}

/// Without the manager there is nothing to talk to.
pub proof fn the_manager_is_needed(c: Compositor, r: Result<(), String>)
    requires
        call_ensures(Compositor::check_manager, (&c,), r),
    ensures
        r is Ok <==> c@.has_manager,
        r matches Err(e) ==> e@
            == "zdwl_ipc_manager_v2 not available - is this a dwl-based compositor?"@,
{
}

/// A plain number that fits 32 bits is the mask to show, without toggling. An object with
/// such a mask toggles exactly if its member `toggle` is the boolean true.
pub proof fn masks_are_commanded(
    c: Compositor,
    key: &str,
    value: JsonValue,
    r: Result<MangoCommand, String>,
    m: u32,
)
    requires
        key@ == "tags"@,
        call_ensures(Compositor::set_command, (&c, key, &value), r),
    ensures
        value@ == JsonView::Number(NumberView::Int(m as int)) ==> r == Ok::<MangoCommand, String>(
            MangoCommand::SetTags { tagmask: m, toggle: false },
        ),
        value@ matches JsonView::Object(map) ==> map.dom().contains("tagmask"@) ==> map["tagmask"@]
            == JsonView::Number(NumberView::Int(m as int)) ==> (r matches Ok(
            MangoCommand::SetTags { tagmask, toggle },
        ) && tagmask == m && (toggle <==> map.dom().contains("toggle"@) && map["toggle"@]
            == JsonView::Bool(true))),
{
    plain_masks_are_shown(c@.layouts, m, u64::MAX);
    if value@ is Object {
        objects_may_toggle(c@.layouts, value@->Object_0, m);
    }
}

/// A report of the scale gives it in hundredths and as a number. Both are kept, and the
/// hundredths tell whether it changed.
pub proof fn scales_are_reported(o: OutputView, hundredths: u32, scale: Number)
    ensures
        reported(o, OutputEvent::Scalefactor(hundredths, scale)) == (OutputView {
            scale_factor: hundredths,
            scale: scale@,
            ..o
        }),
{
}

/// What is reported goes on from what was reported before in the same frame, else from what
/// is known of the output, and else from an output that nothing is known of. The frame in
/// which an output shows up first brings no event.
pub proof fn reports_go_on(c: CompositorView, id: u32, event: OutputEvent)
    requires
        c.outputs.dom().contains(id),
        event !is Frame,
    ensures
        ({
            let output = c.outputs[id].0;
            let after = after_report(c, id, event).pending[output];
            &&& c.pending.dom().contains(output) ==> after == reported(c.pending[output], event)
            &&& !c.pending.dom().contains(output) && c.states.dom().contains(output) ==> after
                == reported(c.states[output], event)
            &&& !c.pending.dom().contains(output) && !c.states.dom().contains(output) ==> after
                == reported(blank_output(), event)
            &&& !c.states.dom().contains(output) ==> report_events(c, id, OutputEvent::Frame).len()
                == 0
            &&& c.states.dom().contains(output) && !c.pending.dom().contains(output)
                ==> report_events(c, id, OutputEvent::Frame).len() == 0
        }),
{
    let output = c.outputs[id].0;
    if c.states.dom().contains(output) {
        unchanged_frames_are_silent(c.states[output], output, c.layouts, c.subscriptions);
    }
}

} // verus!
