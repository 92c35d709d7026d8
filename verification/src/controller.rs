//! The controller: which scripts an event runs, how a script is run, and how
//! requests of clients are answered.

use crate::capability::{
    check_writable, find_is_first, opt_string, write_refusal, AccessMode, Capability,
    CapabilityManifest, CapabilityView,
};
use crate::config::{
    command_named, commands_view, conditions_hold, enabled_watches_are_found, watch_matches,
        watch_refs, watches_of, Command,
    CommandView, Config, ConfigView, Watch, WatchView,
};
use crate::control::{
    answer, empty_answer, refusal, ControlRequest, ControlRequestView, ControlResponse,
    ControlResponseView,
};
use crate::engine::{manifest_result, state_or_empty};
use crate::environment::Variables;
use crate::event::{opt_state, EventView, RawEvent};
use crate::json::{json_text, to_text};
use crate::names::texts;
use crate::paths::{extension, file_extension, resolve_script_path, script_path};
use crate::protocol::quoted;
use crate::text::{
    decimal, joined, joined3, str_eq, u64_to_text, unit_result,
};
use crate::value::{
    int_json, text_json, two_fields, state_of_two, value_result, value_view, values_view, JsonValue,
    JsonView, NumberView, StateMap,
};
use vstd::prelude::*;
use vstd::string::*;
use vstd::utf8::*;

verus! {

/// How many scripts may run at the same time.
pub const MAX_CONCURRENT_SCRIPTS: usize = 8;

/// How long an executable that an event triggers may run, in seconds.
pub const SCRIPT_TIMEOUT_SECS: u64 = 30;

/// How long an executable that a client runs may run, in seconds.
pub const EXEC_TIMEOUT_SECS: u64 = 60;

/// How long a Rhai script that an event triggers may run, in seconds.
pub const RHAI_SCRIPT_TIMEOUT_SECS: u64 = 30;

/// How much of the output of an executable is kept, in bytes.
pub const MAX_OUTPUT_BYTES: usize = 65_536;

/// The scripts of those watches that a transition triggers, in order.
pub open spec fn triggered(
    watches: Seq<WatchView>,
    prev: Map<Seq<char>, JsonView>,
    curr: Map<Seq<char>, JsonView>,
) -> Seq<Seq<char>>
    decreases watches.len(),
{
    if watches.len() == 0 {
        Seq::empty()
    } else {
        let init = triggered(watches.drop_last(), prev, curr);
        if watch_matches(watches.last(), prev, curr) {
            init.push(watches.last().script)
        } else {
            init
        }
    }
}

/// The scripts that an event runs: of every enabled watch for it whose conditions
/// hold, in the order of the configuration. A missing state counts as an empty
/// one.
pub open spec fn scripts_for(config: ConfigView, event: EventView) -> Seq<Seq<char>> {
    triggered(
        watches_of(config.watch, event.name),
        state_or_empty(event.prev),
        state_or_empty(event.curr),
    )
}

fn state_of_event(state: &Option<StateMap>) -> (m: StateMap)
    ensures
        m@ == state_or_empty(opt_state(*state)),
{
    match state {
        Some(m) => m.clone(),
        None => StateMap::new(),
    }
}

/// The scripts that an event runs.
pub fn handle_event(config: &Config, event: &RawEvent) -> (r: Vec<String>)
    ensures
        texts(r@) == scripts_for(config@, event@),
{
    let watches = config.watches_for_event(event.name.as_str());
    let prev = state_of_event(&event.prev);
    let curr = state_of_event(&event.curr);
    let ghost all = watch_refs(watches@);
    let mut r: Vec<String> = Vec::new();
    assert(texts(r@) =~= triggered(all.take(0), prev@, curr@));
    for i in 0..watches.len()
        invariant
            all == watch_refs(watches@),
            texts(r@) == triggered(all.take(i as int), prev@, curr@),
    {
        let ghost before = r@;
        let watch: &Watch = watches[i];
        assert(all.take(i + 1).drop_last() =~= all.take(i as int));
        assert(all.take(i + 1).last() == watch@);
        let unconditional = watch.prev.is_empty() && watch.curr.is_empty();
        if unconditional || watch.matches(&prev, &curr) {
            r.push(watch.script.clone());
            assert(texts(r@) =~= texts(before).push(watch@.script));
        }
    }
    assert(all.take(all.len() as int) =~= all);
    r
}

/// How a script is run.
#[derive(Debug, Clone, Copy, PartialEq, Eq, Structural)]
pub enum ScriptKind {
    /// In process.
    Rhai,
    /// As a process of its own. Some files must start with `#!`.
    Executable { needs_shebang: bool },
}

/// How the script at a path is run: its extension decides.
pub open spec fn kind_of(path: Seq<char>) -> ScriptKind {
    if extension(path) == Some("rhai"@) {
        ScriptKind::Rhai
    } else {
        ScriptKind::Executable { needs_shebang: extension(path) == Some("sh"@) }
    }
}

/// How the script at a path is run.
pub fn script_kind(path: &str) -> (r: ScriptKind)
    ensures
        r == kind_of(path@),
{
    match file_extension(path) {
        Some(e) => if str_eq(e, "rhai") {
            ScriptKind::Rhai
        } else {
            ScriptKind::Executable { needs_shebang: str_eq(e, "sh") }
        },
        None => ScriptKind::Executable { needs_shebang: false },
    }
}

/// Decides how to run a script, given whether its file exists.
pub fn plan_script(path: &str, exists: bool) -> (r: Result<ScriptKind, String>)
    ensures
        (match r {
            Ok(kind) => Ok(kind),
            Err(e) => Err(e@),
        }) == (if exists {
            Ok(kind_of(path@))
        } else {
            Err("Script not found: "@ + path@)
        }),
{
    if exists {
        Ok(script_kind(path))
    } else {
        Err(joined("Script not found: ", path))
    }
}

/// Whether the beginning of a file is a shebang.
pub fn has_shebang(head: &Vec<u8>) -> (r: bool)
    ensures
        r == (head@.len() >= 2 && head@[0] == 0x23 && head@[1] == 0x21),
{
    head.len() >= 2 && head[0] == 0x23 && head[1] == 0x21
}

/// Checks the beginning of a script that must start with a shebang.
pub fn check_shebang(path: &str, head: &Result<Vec<u8>, String>) -> (r: Result<(), String>)
    ensures
        unit_result(r) == (match *head {
            Ok(bytes) => if bytes@.len() >= 2 && bytes@[0] == 0x23 && bytes@[1] == 0x21 {
                Ok(())
            } else {
                Err(
                    "Script '"@ + path@ + "' is missing a shebang line (e.g., #!/bin/bash)"@,
                )
            },
            Err(e) => Err("Failed to read script '"@ + path@ + "': "@ + e@),
        }),
{
    match head {
        Ok(bytes) => if has_shebang(bytes) {
            Ok(())
        } else {
            Err(joined3("Script '", path, "' is missing a shebang line (e.g., #!/bin/bash)"))
        },
        Err(e) => {
            let start = joined3("Failed to read script '", path, "': ");
            Err(joined(start.as_str(), e.as_str()))
        },
    }
}

/// A state as JSON: `null` where there is none.
pub open spec fn state_json(s: Option<Map<Seq<char>, JsonView>>) -> JsonView {
    match s {
        Some(m) => JsonView::Object(m),
        None => JsonView::Null,
    }
}

fn state_text(state: &Option<StateMap>) -> (r: String)
    ensures
        r@ == json_text(state_json(opt_state(*state))),
        state is None ==> r@ == "null"@,
{
    broadcast use value_view;

    match state {
        Some(m) => to_text(&JsonValue::Object(m.clone())),
        None => to_text(&JsonValue::Null),
    }
}

/// The argument that an executable gets: the event as JSON.
pub open spec fn payload_of(event: Option<EventView>) -> Seq<char> {
    match event {
        Some(e) => "{\"event\":"@ + quoted(e.name) + ",\"prev\":"@ + json_text(state_json(e.prev))
            + ",\"curr\":"@ + json_text(state_json(e.curr)) + "}"@,
        None => "{\"event\":\"command\",\"prev\":null,\"curr\":null}"@,
    }
}

/// The model of an optional event.
pub open spec fn opt_event_ref(e: Option<&RawEvent>) -> Option<EventView> {
    match e {
        Some(e) => Some(e@),
        None => None,
    }
}

/// The argument that an executable gets. Without an event it was run by name.
pub fn script_payload(event: Option<&RawEvent>) -> (r: String)
    ensures
        r@ == payload_of(opt_event_ref(event)),
{
    match event {
        Some(e) => {
            let mut out = joined("{\"event\":", to_text(&JsonValue::text(e.name.as_str())).as_str());
            out.append(",\"prev\":");
            out.append(state_text(&e.prev).as_str());
            out.append(",\"curr\":");
            out.append(state_text(&e.curr).as_str());
            out.append("}");
            out
        },
        None => "{\"event\":\"command\",\"prev\":null,\"curr\":null}".to_owned(),
    }
}

/// The variables that an executable gets: those that are configured, and the
/// event, which takes precedence over them.
pub open spec fn environment_of(
    configured: Map<Seq<char>, Seq<char>>,
    event: Option<EventView>,
) -> Map<Seq<char>, Seq<char>> {
    match event {
        Some(e) => configured.insert("MSX_EVENT"@, e.name).insert(
            "MSX_PREV"@,
            json_text(state_json(e.prev)),
        ).insert("MSX_CURR"@, json_text(state_json(e.curr))),
        None => configured.insert("MSX_EVENT"@, "command"@).insert("MSX_PREV"@, "null"@).insert(
            "MSX_CURR"@,
            "null"@,
        ),
    }
}

/// The variables that an executable gets.
pub fn script_environment(configured: &Variables, event: Option<&RawEvent>) -> (r: Variables)
    ensures
        r@ == environment_of(configured@, opt_event_ref(event)),
{
    let mut r = configured.clone();
    match event {
        Some(e) => {
            r.insert("MSX_EVENT", e.name.as_str());
            r.insert("MSX_PREV", state_text(&e.prev).as_str());
            r.insert("MSX_CURR", state_text(&e.curr).as_str());
        },
        None => {
            r.insert("MSX_EVENT", "command");
            r.insert("MSX_PREV", "null");
            r.insert("MSX_CURR", "null");
        },
    }
    r
}

/// What `String::from_utf8_lossy` makes of some bytes.
pub uninterp spec fn lossy_text(bytes: Seq<u8>) -> Seq<char>;

/// Calls `String::from_utf8_lossy`. The text depends on the bytes alone. Bytes
/// that are UTF-8 are decoded as such. Something stands for others; what it is is
/// not said here.
#[verifier::external_body]
fn text_of_bytes(bytes: &Vec<u8>) -> (r: String)
    ensures
        r@ == lossy_text(bytes@),
        valid_utf8(bytes@) ==> r@ == decode_utf8(bytes@),
        bytes@.len() > 0 ==> r@.len() > 0,
{
    String::from_utf8_lossy(bytes).into_owned()
}

/// The part of an output that is kept.
pub open spec fn kept(bytes: Seq<u8>) -> Seq<u8> {
    if bytes.len() <= MAX_OUTPUT_BYTES {
        bytes
    } else {
        bytes.take(MAX_OUTPUT_BYTES as int)
    }
}

fn keep(bytes: &Vec<u8>) -> (r: Vec<u8>)
    ensures
        r@ == kept(bytes@),
{
    let n: usize = if bytes.len() <= MAX_OUTPUT_BYTES {
        bytes.len()
    } else {
        MAX_OUTPUT_BYTES
    };
    let mut r: Vec<u8> = Vec::new();
    for i in 0..n
        invariant
            n <= bytes@.len(),
            r@ == bytes@.take(i as int),
    {
        r.push(bytes[i]);
        assert(bytes@.take(i + 1) =~= bytes@.take(i as int).push(bytes@[i as int]));
    }
    assert(r@ =~= kept(bytes@));
    r
}

/// The text of an output, as far as it is kept.
pub fn output_text(bytes: &Vec<u8>) -> (r: String)
    ensures
        r@ == lossy_text(kept(bytes@)),
        valid_utf8(kept(bytes@)) ==> r@ == decode_utf8(kept(bytes@)),
        bytes@.len() > 0 ==> r@.len() > 0,
{
    text_of_bytes(&keep(bytes))
}

/// How the run of an executable ended.
#[derive(Debug)]
pub enum ShellRun {
    /// It ended by itself, with this status.
    Finished { success: bool, status: String, stdout: Vec<u8>, stderr: Vec<u8> },
    /// It could not be started or waited for.
    Failed(String),
    /// It took too long.
    TimedOut,
}

/// What a client that ran an executable is told.
pub open spec fn shell_outcome_of(script_name: Seq<char>, run: ShellRun) -> Result<
    Option<Seq<char>>,
    Seq<char>,
> {
    match run {
        ShellRun::Finished { success, status, stdout, stderr } => if success {
            if lossy_text(kept(stdout@)).len() == 0 {
                Ok(None)
            } else {
                Ok(Some(lossy_text(kept(stdout@))))
            }
        } else {
            Err(
                "Command '"@ + script_name + "' failed with status "@ + status@ + ": "@
                    + lossy_text(kept(stderr@)),
            )
        },
        ShellRun::Failed(e) => Err("Failed to execute command '"@ + script_name + "': "@ + e@),
        ShellRun::TimedOut => Err(
            "Command '"@ + script_name + "' timed out after "@ + decimal(EXEC_TIMEOUT_SECS as nat)
                + "s"@,
        ),
    }
}

/// The model of an outcome with an optional text.
pub open spec fn output_result(r: Result<Option<String>, String>) -> Result<
    Option<Seq<char>>,
    Seq<char>,
> {
    match r {
        Ok(s) => Ok(opt_string(s)),
        Err(e) => Err(e@),
    }
}

/// What a client that ran an executable is told.
pub fn shell_outcome(script_name: &str, run: &ShellRun) -> (r: Result<Option<String>, String>)
    ensures
        output_result(r) == shell_outcome_of(script_name@, *run),
        match *run {
            ShellRun::Finished { success, stdout, .. } => success ==> (r matches Ok(text) && (
            text is Some <==> stdout@.len() > 0)),
            _ => r is Err,
        },
{
    match run {
        ShellRun::Finished { success, status, stdout, stderr } => {
            if *success {
                let text = output_text(stdout);
                if text.as_str().is_empty() {
                    Ok(None)
                } else {
                    Ok(Some(text))
                }
            } else {
                let mut e = joined3("Command '", script_name, "' failed with status ");
                e.append(status.as_str());
                e.append(": ");
                e.append(output_text(stderr).as_str());
                Err(e)
            }
        },
        ShellRun::Failed(reason) => {
            let mut e = joined3("Failed to execute command '", script_name, "': ");
            e.append(reason.as_str());
            Err(e)
        },
        ShellRun::TimedOut => {
            let mut e = joined3("Command '", script_name, "' timed out after ");
            e.append(u64_to_text(EXEC_TIMEOUT_SECS).as_str());
            e.append("s");
            Err(e)
        },
    }
}

/// A step of answering a request: something to ask of the backend or of a
/// script, or the answer.
#[derive(Debug)]
pub enum ControlStep {
    /// Read a key, then call `finish_get`.
    ReadKey { key: String },
    /// Ask for the manifest, then call `check_set`.
    AskBeforeSet { key: String, value: JsonValue },
    /// Set a key, then call `finish_set`.
    WriteKey { key: String, value: JsonValue },
    /// Run the script of that name at that path, then call `finish_script`.
    RunScript { name: String, path: String },
    /// Ask for the manifest, then call `finish_caps`.
    AskForCaps,
    /// Send this.
    Answer(ControlResponse),
}

pub enum ControlStepView {
    ReadKey { key: Seq<char> },
    AskBeforeSet { key: Seq<char>, value: JsonView },
    WriteKey { key: Seq<char>, value: JsonView },
    RunScript { name: Seq<char>, path: Seq<char> },
    AskForCaps,
    Answer(ControlResponseView),
}

impl View for ControlStep {
    type V = ControlStepView;

    open spec fn view(&self) -> ControlStepView {
        match self {
            ControlStep::ReadKey { key } => ControlStepView::ReadKey { key: key@ },
            ControlStep::AskBeforeSet { key, value } => ControlStepView::AskBeforeSet {
                key: key@,
                value: value@,
            },
            ControlStep::WriteKey { key, value } => ControlStepView::WriteKey {
                key: key@,
                value: value@,
            },
            ControlStep::RunScript { name, path } => ControlStepView::RunScript {
                name: name@,
                path: path@,
            },
            ControlStep::AskForCaps => ControlStepView::AskForCaps,
            ControlStep::Answer(response) => ControlStepView::Answer(response@),
        }
    }
}

/// An optional text as JSON.
pub open spec fn opt_text_json(s: Option<Seq<char>>) -> JsonView {
    match s {
        Some(s) => text_json(s),
        None => JsonView::Null,
    }
}

/// A command, as it is listed.
pub open spec fn listed_command(c: CommandView) -> JsonView {
    JsonView::Object(
        two_fields("name"@, text_json(c.name), "description"@, opt_text_json(c.description)).insert(
            "script"@,
            text_json(c.script),
        ),
    )
}

/// All commands, as they are listed.
pub open spec fn commands_listing(commands: Seq<CommandView>) -> JsonView {
    JsonView::Array(Seq::new(commands.len(), |i: int| listed_command(commands[i])))
}

/// The word for an access mode.
pub open spec fn access_word(access: AccessMode) -> Seq<char> {
    match access {
        AccessMode::ReadOnly => "ReadOnly"@,
        AccessMode::ReadWrite => "ReadWrite"@,
    }
}

/// A capability, as it is listed.
pub open spec fn listed_capability(c: CapabilityView) -> JsonView {
    JsonView::Object(
        two_fields("name"@, text_json(c.name), "access"@, text_json(access_word(c.access))).insert(
            "description"@,
            opt_text_json(c.description),
        ),
    )
}

/// All capabilities, as they are listed.
pub open spec fn capabilities_listing(manifest: Seq<CapabilityView>) -> JsonView {
    JsonView::Array(Seq::new(manifest.len(), |i: int| listed_capability(manifest[i])))
}

/// The status of the daemon.
pub open spec fn status_of(adapter: Seq<char>, pid: u32) -> JsonView {
    JsonView::Object(
        two_fields("running"@, JsonView::Bool(true), "pid"@, int_json(pid as int)).insert(
            "adapter"@,
            text_json(adapter),
        ),
    )
}

/// What a controller knows.
pub struct ControllerView {
    pub config: ConfigView,
    pub adapter: Seq<char>,
    pub scripts_dir: Seq<char>,
    pub pid: u32,
}

/// The first step of answering a request.
pub open spec fn first_step(c: ControllerView, request: ControlRequestView) -> ControlStepView {
    match request {
        ControlRequestView::Get { key } => ControlStepView::ReadKey { key },
        ControlRequestView::SetKey { key, value } => ControlStepView::AskBeforeSet { key, value },
        ControlRequestView::Exec { name } => match command_named(c.config.command, name) {
            Some(command) => ControlStepView::RunScript {
                name: command.script,
                path: script_path(c.scripts_dir, command.script),
            },
            None => ControlStepView::Answer(refusal("Unknown command: "@ + name)),
        },
        ControlRequestView::Caps => ControlStepView::AskForCaps,
        ControlRequestView::Commands => ControlStepView::Answer(
            answer(commands_listing(c.config.command)),
        ),
        ControlRequestView::Status => ControlStepView::Answer(answer(status_of(c.adapter, c.pid))),
        ControlRequestView::Stop => ControlStepView::Answer(empty_answer()),
    }
}

/// The step after the manifest came: a key that must not be written is refused,
/// and the backend is not asked to write it.
pub open spec fn step_before_set(
    key: Seq<char>,
    value: JsonView,
    manifest: Result<Seq<CapabilityView>, Seq<char>>,
) -> ControlStepView {
    match manifest {
        Err(e) => ControlStepView::Answer(refusal(e)),
        Ok(manifest) => match write_refusal(manifest, key) {
            Some(e) => ControlStepView::Answer(refusal(e)),
            None => ControlStepView::WriteKey { key, value },
        },
    }
}

/// Answers requests and triggers scripts.
#[derive(Debug)]
pub struct Controller {
    config: Config,
    adapter: String,
    scripts_dir: String,
    pid: u32,
}

impl View for Controller {
    type V = ControllerView;

    closed spec fn view(&self) -> ControllerView {
        ControllerView {
            config: self.config@,
            adapter: self.adapter@,
            scripts_dir: self.scripts_dir@,
            pid: self.pid,
        }
    }
}

fn opt_text_value(s: &Option<String>) -> (v: JsonValue)
    ensures
        v@ == opt_text_json(opt_string(*s)),
{
    broadcast use value_view;

    match s {
        Some(s) => JsonValue::text(s.as_str()),
        None => JsonValue::Null,
    }
}

fn list_commands(commands: &Vec<Command>) -> (r: JsonValue)
    ensures
        r@ == commands_listing(commands_view(commands@)),
{
    broadcast use value_view;

    let ghost want = commands_listing(commands_view(commands@))->Array_0;
    let mut out: Vec<JsonValue> = Vec::new();
    for i in 0..commands.len()
        invariant
            want == commands_listing(commands_view(commands@))->Array_0,
            values_view(out@) == want.take(i as int),
    {
        broadcast use value_view;

        let ghost before = out@;
        let c = &commands[i];
        let mut m = state_of_two(
            "name",
            JsonValue::text(c.name.as_str()),
            "description",
            opt_text_value(&c.description),
        );
        m.insert("script", JsonValue::text(c.script.as_str()));
        let entry = JsonValue::Object(m);
        assert(entry@ == want[i as int]);
        out.push(entry);
        assert(values_view(out@) =~= values_view(before).push(entry@));
        assert(want.take(i + 1) =~= want.take(i as int).push(want[i as int]));
    }
    assert(want.take(want.len() as int) =~= want);
    JsonValue::Array(out)
}

fn list_capabilities(manifest: &CapabilityManifest) -> (r: JsonValue)
    ensures
        r@ == capabilities_listing(manifest@),
{
    broadcast use value_view;

    let caps: &Vec<Capability> = manifest.iter();
    let ghost want = capabilities_listing(manifest@)->Array_0;
    let mut out: Vec<JsonValue> = Vec::new();
    for i in 0..caps.len()
        invariant
            manifest@ == crate::capability::capabilities_view(caps@),
            want == capabilities_listing(manifest@)->Array_0,
            values_view(out@) == want.take(i as int),
    {
        broadcast use value_view;

        let ghost before = out@;
        let c = &caps[i];
        let word = match c.access {
            AccessMode::ReadOnly => "ReadOnly",
            AccessMode::ReadWrite => "ReadWrite",
        };
        let mut m = state_of_two(
            "name",
            JsonValue::text(c.name.as_str()),
            "access",
            JsonValue::text(word),
        );
        m.insert("description", opt_text_value(&c.description));
        let entry = JsonValue::Object(m);
        assert(entry@ == want[i as int]);
        out.push(entry);
        assert(values_view(out@) =~= values_view(before).push(entry@));
        assert(want.take(i + 1) =~= want.take(i as int).push(want[i as int]));
    }
    assert(want.take(want.len() as int) =~= want);
    JsonValue::Array(out)
}

impl Controller {
    /// A controller for a backend of that name, in the process with that id.
    pub fn new(config: Config, adapter: &str, scripts_dir: &str, pid: u32) -> (c: Controller)
        ensures
            c@ == (ControllerView {
                config: config@,
                adapter: adapter@,
                scripts_dir: scripts_dir@,
                pid,
            }),
    {
        Controller {
            config,
            adapter: adapter.to_owned(),
            scripts_dir: scripts_dir.to_owned(),
            pid,
        }
    }

    /// The name of the backend.
    pub fn adapter_name(&self) -> (r: &str)
        ensures
            r@ == self@.adapter,
    {
        self.adapter.as_str()
    }

    /// The configuration.
    pub fn config(&self) -> (r: &Config)
        ensures
            r@ == self@.config,
    {
        &self.config
    }

    /// The scripts that an event runs, as paths, each with the name under which
    /// the configuration lists it.
    pub fn scripts_for_event(&self, event: &RawEvent) -> (r: Vec<(String, String)>)
        ensures
            r@.len() == scripts_for(self@.config, event@).len(),
            forall|i: int|
                0 <= i < r@.len() ==> (#[trigger] r@[i]).0@ == scripts_for(
                    self@.config,
                    event@,
                )[i] && r@[i].1@ == script_path(self@.scripts_dir, r@[i].0@),
    {
        let names = handle_event(&self.config, event);
        let ghost want = scripts_for(self@.config, event@);
        let mut r: Vec<(String, String)> = Vec::new();
        for i in 0..names.len()
            invariant
                want == texts(names@),
                r@.len() == i,
                forall|j: int|
                    0 <= j < i ==> (#[trigger] r@[j]).0@ == want[j] && r@[j].1@ == script_path(
                        self@.scripts_dir,
                        r@[j].0@,
                    ),
        {
            let path = resolve_script_path(self.scripts_dir.as_str(), names[i].as_str());
            r.push((names[i].clone(), path));
        }
        r
    }

    /// The first step of answering a request.
    pub fn handle_control(&self, request: ControlRequest) -> (r: ControlStep)
        ensures
            r@ == first_step(self@, request@),
    {
        broadcast use value_view;

        match request {
            ControlRequest::Get { key } => ControlStep::ReadKey { key },
            ControlRequest::SetKey { key, value } => ControlStep::AskBeforeSet { key, value },
            ControlRequest::Exec { name } => match self.config.command_by_name(name.as_str()) {
                Some(command) => ControlStep::RunScript {
                    name: command.script.clone(),
                    path: resolve_script_path(self.scripts_dir.as_str(), command.script.as_str()),
                },
                None => ControlStep::Answer(
                    ControlResponse::err(joined("Unknown command: ", name.as_str()).as_str()),
                ),
            },
            ControlRequest::Caps => ControlStep::AskForCaps,
            ControlRequest::Commands => ControlStep::Answer(
                ControlResponse::ok(list_commands(&self.config.command)),
            ),
            ControlRequest::Status => {
                let mut m = state_of_two(
                    "running",
                    JsonValue::boolean(true),
                    "pid",
                    JsonValue::unsigned(self.pid as u64),
                );
                m.insert("adapter", JsonValue::text(self.adapter.as_str()));
                ControlStep::Answer(ControlResponse::ok(JsonValue::Object(m)))
            },
            ControlRequest::Stop => ControlStep::Answer(ControlResponse::ok_empty()),
        }
    }
}

/// The step after the manifest came, before a key is set.
pub fn check_set(
    key: String,
    value: JsonValue,
    manifest: &Result<CapabilityManifest, String>,
) -> (r: ControlStep)
    ensures
        r@ == step_before_set(key@, value@, manifest_result(*manifest)),
{
    match validate_set_key(key.as_str(), manifest) {
        Ok(()) => ControlStep::WriteKey { key, value },
        Err(e) => ControlStep::Answer(ControlResponse::err(e.as_str())),
    }
}

/// Checks that the backend lets a key be written.
pub fn validate_set_key(key: &str, manifest: &Result<CapabilityManifest, String>) -> (r: Result<
    (),
    String,
>)
    ensures
        unit_result(r) == (match manifest_result(*manifest) {
            Err(e) => Err(e),
            Ok(manifest) => match write_refusal(manifest, key@) {
                Some(e) => Err(e),
                None => Ok(()),
            },
        }),
{
    match manifest {
        Ok(manifest) => check_writable(manifest, key),
        Err(e) => Err(e.clone()),
    }
}

/// The answer once a key was read.
pub fn finish_get(result: Result<JsonValue, String>) -> (r: ControlResponse)
    ensures
        r@ == (match value_result(result) {
            Ok(v) => answer(v),
            Err(e) => refusal(e),
        }),
{
    match result {
        Ok(v) => ControlResponse::ok(v),
        Err(e) => ControlResponse::err(e.as_str()),
    }
}

/// The answer once a key was set.
pub fn finish_set(result: &Result<(), String>) -> (r: ControlResponse)
    ensures
        r@ == (match unit_result(*result) {
            Ok(()) => empty_answer(),
            Err(e) => refusal(e),
        }),
{
    match result {
        Ok(()) => ControlResponse::ok_empty(),
        Err(e) => ControlResponse::err(e.as_str()),
    }
}

/// The answer once a script was run.
pub fn finish_script(result: &Result<Option<String>, String>) -> (r: ControlResponse)
    ensures
        r@ == (match output_result(*result) {
            Ok(None) => empty_answer(),
            Ok(Some(output)) => answer(text_json(output)),
            Err(e) => refusal(e),
        }),
{
    match result {
        Ok(None) => ControlResponse::ok_empty(),
        Ok(Some(output)) => ControlResponse::ok(JsonValue::text(output.as_str())),
        Err(e) => ControlResponse::err(e.as_str()),
    }
}

/// The answer once the manifest came.
pub fn finish_caps(manifest: &Result<CapabilityManifest, String>) -> (r: ControlResponse)
    ensures
        r@ == (match manifest_result(*manifest) {
            Ok(manifest) => answer(capabilities_listing(manifest)),
            Err(e) => refusal(e),
        }),
{
    match manifest {
        Ok(manifest) => ControlResponse::ok(list_capabilities(manifest)),
        Err(e) => ControlResponse::err(e.as_str()),
    }
}

/// What wakes the daemon.
#[derive(Debug)]
pub enum DaemonInput {
    /// The backend emitted an event.
    Event,
    /// The backend will emit no more events.
    EventsEnded,
    /// A client connected.
    Client,
    /// No client can connect any more, for this reason.
    AcceptFailed(String),
    /// The user or the surroundings ask to stop.
    Interrupted,
    /// A client asked to stop.
    StopRequested,
}

/// What the daemon does next.
#[derive(Debug)]
pub enum DaemonStep {
    HandleEvent,
    ServeClient,
    /// Shut the backend down and end with this.
    Finish(Result<(), String>),
}

pub enum DaemonStepView {
    HandleEvent,
    ServeClient,
    Finish(Result<(), Seq<char>>),
}

impl View for DaemonStep {
    type V = DaemonStepView;

    open spec fn view(&self) -> DaemonStepView {
        match self {
            DaemonStep::HandleEvent => DaemonStepView::HandleEvent,
            DaemonStep::ServeClient => DaemonStepView::ServeClient,
            DaemonStep::Finish(r) => DaemonStepView::Finish(unit_result(*r)),
        }
    }
}

/// What the daemon does when something wakes it.
pub fn daemon_step(input: &DaemonInput) -> (r: DaemonStep)
    ensures
        r@ == (match *input {
            DaemonInput::Event => DaemonStepView::HandleEvent,
            DaemonInput::EventsEnded => DaemonStepView::Finish(
                Err("adapter event stream ended unexpectedly"@),
            ),
            DaemonInput::Client => DaemonStepView::ServeClient,
            DaemonInput::AcceptFailed(e) => DaemonStepView::Finish(Err(e@)),
            DaemonInput::Interrupted => DaemonStepView::Finish(Ok(())),
            DaemonInput::StopRequested => DaemonStepView::Finish(Ok(())),
        }),
{
    match input {
        DaemonInput::Event => DaemonStep::HandleEvent,
        DaemonInput::EventsEnded => DaemonStep::Finish(
            Err("adapter event stream ended unexpectedly".to_owned()),
        ),
        DaemonInput::Client => DaemonStep::ServeClient,
        DaemonInput::AcceptFailed(e) => DaemonStep::Finish(Err(e.clone())),
        DaemonInput::Interrupted => DaemonStep::Finish(Ok(())),
        DaemonInput::StopRequested => DaemonStep::Finish(Ok(())),
    }
}

/// How the daemon ends, given how its loop ended and how the backend shut down:
/// the first thing that went wrong counts.
pub fn daemon_result(run: Result<(), String>, shutdown: Result<(), String>) -> (r: Result<
    (),
    String,
>)
    ensures
        unit_result(r) == (match unit_result(run) {
            Ok(()) => unit_result(shutdown),
            Err(e) => Err(e),
        }),
{
    match run {
        Ok(()) => shutdown,
        Err(e) => Err(e),
    }
}

/// A client can write a key exactly when the backend declares it writable, and
/// what the backend is then asked to write is what the client sent.
pub proof fn refused_keys_are_not_written(
    key: Seq<char>,
    value: JsonView,
    manifest: Seq<CapabilityView>,
)
    ensures
        match step_before_set(key, value, Ok(manifest)) {
            ControlStepView::WriteKey { key: k, value: v } => {
                &&& k == key
                &&& v == value
                &&& crate::capability::manifest_find(manifest, key) matches Some(c)
                &&& c.access == AccessMode::ReadWrite
            },
            ControlStepView::Answer(response) => {
                &&& !response.success
                &&& response.error == Some("unknown key: "@ + key) || response.error == Some(
                    "read-only key: "@ + key,
                )
                &&& !(crate::capability::manifest_find(manifest, key) matches Some(c) && c.access
                    == AccessMode::ReadWrite)
            },
            _ => false,
        },
{
}

/// A key that is not declared and one that is declared read-only are refused with
/// different words.
pub proof fn refusals_tell_why(key: Seq<char>, manifest: Seq<CapabilityView>)
    ensures
        write_refusal(manifest, key) == Some("unknown key: "@ + key) <==> (
        crate::capability::manifest_find(manifest, key) is None),
{
    reveal_strlit("unknown key: ");
    reveal_strlit("read-only key: ");
    let a = "unknown key: "@ + key;
    let b = "read-only key: "@ + key;
    assert(a[0] == 'u' && b[0] == 'r');
}

/// An event runs a script exactly when an enabled watch for the event names the
/// script and every condition of that watch holds.
pub proof fn event_runs_matching_watches(config: ConfigView, event: EventView, script: Seq<char>)
    ensures
        scripts_for(config, event).contains(script) <==> (exists|i: int|
            0 <= i < config.watch.len() && {
                let w = #[trigger] config.watch[i];
                &&& w.enabled
                &&& w.event == event.name
                &&& w.script == script
                &&& conditions_hold(w.prev, state_or_empty(event.prev))
                &&& conditions_hold(w.curr, state_or_empty(event.curr))
            }),
{
    let prev = state_or_empty(event.prev);
    let curr = state_or_empty(event.curr);
    let wanted = |w: WatchView| w.enabled && w.event == event.name;
    let chosen = watches_of(config.watch, event.name);
    triggered_contains(chosen, prev, curr, script);
    chosen_watches(config.watch, event.name);
    if scripts_for(config, event).contains(script) {
        let j = choose|j: int|
            0 <= j < chosen.len() && watch_matches(#[trigger] chosen[j], prev, curr)
                && chosen[j].script == script;
        assert(chosen.contains(chosen[j]));
        let i = choose|i: int| 0 <= i < config.watch.len() && config.watch[i] == chosen[j];
        assert(config.watch[i].script == script);
    }
    if exists|i: int|
        0 <= i < config.watch.len() && {
            let w = #[trigger] config.watch[i];
            &&& w.enabled
            &&& w.event == event.name
            &&& w.script == script
            &&& conditions_hold(w.prev, prev)
            &&& conditions_hold(w.curr, curr)
        } {
        let i = choose|i: int|
            0 <= i < config.watch.len() && {
                let w = #[trigger] config.watch[i];
                &&& w.enabled
                &&& w.event == event.name
                &&& w.script == script
                &&& conditions_hold(w.prev, prev)
                &&& conditions_hold(w.curr, curr)
            };
        assert(config.watch.contains(config.watch[i]));
        assert(chosen.contains(config.watch[i]));
        let j = choose|j: int| 0 <= j < chosen.len() && chosen[j] == config.watch[i];
        assert(watch_matches(chosen[j], prev, curr));
    }
}

/// What is chosen are the enabled watches for the event.
proof fn chosen_watches(watches: Seq<WatchView>, event: Seq<char>)
    ensures
        forall|w: WatchView| #[trigger]
            watches_of(watches, event).contains(w) <==> watches.contains(w) && w.enabled && w.event
                == event,
    decreases watches.len(),
{
    reveal(Seq::filter);
    let wanted = |w: WatchView| w.enabled && w.event == event;
    let chosen = watches_of(watches, event);
    if watches.len() > 0 {
        let init = watches.drop_last();
        let last = watches.last();
        chosen_watches(init, event);
        let before = watches_of(init, event);
        assert forall|w: WatchView| #[trigger] chosen.contains(w) <==> watches.contains(w)
            && wanted(w) by {
            assert(watches.contains(w) <==> init.contains(w) || w == last) by {
                if watches.contains(w) {
                    let i = choose|i: int| 0 <= i < watches.len() && watches[i] == w;
                    if i < init.len() {
                        assert(init[i] == w);
                    }
                }
                if init.contains(w) {
                    let i = choose|i: int| 0 <= i < init.len() && init[i] == w;
                    assert(watches[i] == w);
                }
                assert(watches[watches.len() - 1] == last);
            }
            assert(before.contains(w) <==> init.contains(w) && wanted(w));
            if wanted(last) {
                assert(chosen =~= before.push(last));
                assert(chosen.contains(w) <==> before.contains(w) || w == last) by {
                    if chosen.contains(w) {
                        let i = choose|i: int| 0 <= i < chosen.len() && chosen[i] == w;
                        if i < before.len() {
                            assert(before[i] == w);
                        }
                    }
                    if before.contains(w) {
                        let i = choose|i: int| 0 <= i < before.len() && before[i] == w;
                        assert(chosen[i] == w);
                    }
                    assert(chosen[before.len() as int] == last);
                }
            } else {
                assert(chosen == before);
            }
        }
    }
}

proof fn triggered_contains(
    watches: Seq<WatchView>,
    prev: Map<Seq<char>, JsonView>,
    curr: Map<Seq<char>, JsonView>,
    script: Seq<char>,
)
    ensures
        triggered(watches, prev, curr).contains(script) <==> (exists|j: int|
            0 <= j < watches.len() && watch_matches(#[trigger] watches[j], prev, curr)
                && watches[j].script == script),
    decreases watches.len(),
{
    if watches.len() > 0 {
        let init = watches.drop_last();
        let last = watches.last();
        triggered_contains(init, prev, curr, script);
        let before = triggered(init, prev, curr);
        let after = triggered(watches, prev, curr);
        if after.contains(script) {
            let i = choose|i: int| 0 <= i < after.len() && after[i] == script;
            if i < before.len() {
                assert(before[i] == script);
                let j = choose|j: int|
                    0 <= j < init.len() && watch_matches(#[trigger] init[j], prev, curr)
                        && init[j].script == script;
                assert(watches[j] == init[j]);
            } else {
                assert(watches[watches.len() - 1] == last);
            }
        }
        if exists|j: int|
            0 <= j < watches.len() && watch_matches(#[trigger] watches[j], prev, curr)
                && watches[j].script == script {
            let j = choose|j: int|
                0 <= j < watches.len() && watch_matches(#[trigger] watches[j], prev, curr)
                    && watches[j].script == script;
            if j < init.len() {
                assert(init[j] == watches[j]);
                let i = choose|i: int| 0 <= i < before.len() && before[i] == script;
                assert(after[i] == script);
            } else {
                assert(after[before.len() as int] == script);
            }
        }
    }
}

/// What the daemon sets for a script overrides what is configured, and every
/// other variable keeps its configured value.
pub proof fn own_variables_take_precedence(
    configured: Map<Seq<char>, Seq<char>>,
    event: EventView,
    name: Seq<char>,
)
    ensures
        ({
            let env = environment_of(configured, Some(event));
            &&& env["MSX_EVENT"@] == event.name
            &&& env["MSX_PREV"@] == json_text(state_json(event.prev))
            &&& env["MSX_CURR"@] == json_text(state_json(event.curr))
            &&& name != "MSX_EVENT"@ && name != "MSX_PREV"@ && name != "MSX_CURR"@ ==> {
                &&& env.dom().contains(name) == configured.dom().contains(name)
                &&& configured.dom().contains(name) ==> env[name] == configured[name]
            }
        }),
{
    reveal_strlit("MSX_EVENT");
    reveal_strlit("MSX_PREV");
    reveal_strlit("MSX_CURR");
    assert("MSX_EVENT"@.len() == 9 && "MSX_PREV"@.len() == 8 && "MSX_CURR"@.len() == 8);
    assert("MSX_PREV"@[4] == 'P' && "MSX_CURR"@[4] == 'C');
}

/// Of an output no more than the limit is kept, and it is kept from the start.
pub proof fn output_is_limited(bytes: Seq<u8>)
    ensures
        kept(bytes).len() <= MAX_OUTPUT_BYTES,
        kept(bytes).is_prefix_of(bytes),
        bytes.len() <= MAX_OUTPUT_BYTES ==> kept(bytes) == bytes,
{
    assert(bytes.take(bytes.len() as int) =~= bytes);
}

/// Watches run in the order of the configuration, each that matches once: one more watch
/// adds its script behind the others exactly if it is enabled, names the event and matches
/// the two states. A state that the event does not have counts as an empty one.
pub proof fn watches_run_in_order(config: ConfigView, w: WatchView, event: EventView)
    ensures
        ({
            let more = ConfigView { watch: config.watch.push(w), ..config };
            let runs = w.enabled && w.event == event.name && watch_matches(
                w,
                if event.prev is Some {
                    event.prev->0
                } else {
                    Map::empty()
                },
                if event.curr is Some {
                    event.curr->0
                } else {
                    Map::empty()
                },
            );
            &&& runs ==> scripts_for(more, event) == scripts_for(config, event).push(w.script)
            &&& !runs ==> scripts_for(more, event) == scripts_for(config, event)
        }),
        scripts_for(ConfigView { watch: Seq::empty(), ..config }, event).len() == 0,
{
    enabled_watches_are_found(config.watch, w, event.name);
    let chosen = watches_of(config.watch, event.name);
    assert(chosen.push(w).drop_last() =~= chosen);
    assert(chosen.push(w).last() == w);
}

/// A script that ends in `.rhai` runs in process, and every other one as a process of its
/// own. One that ends in `.sh` must start with a shebang.
pub proof fn extensions_decide(path: Seq<char>)
    ensures
        kind_of(path) == ScriptKind::Rhai <==> extension(path) == Some("rhai"@),
        kind_of(path) == (ScriptKind::Executable { needs_shebang: true }) <==> extension(path)
            == Some("sh"@),
        extension(path) != Some("rhai"@) && extension(path) != Some("sh"@) ==> kind_of(path) == (
        ScriptKind::Executable { needs_shebang: false }),
{
    reveal_strlit("rhai");
    reveal_strlit("sh");
    assert("rhai"@.len() == 4);
    assert("sh"@.len() == 2);
}

/// A script is handed the event with both states, and `null` for a state that is not
/// there. A script that a client runs is handed a command without states.
pub proof fn payloads_tell_of_the_event(
    name: Seq<char>,
    prev: Map<Seq<char>, JsonView>,
    curr: Map<Seq<char>, JsonView>,
)
    ensures
        payload_of(Some(EventView { name, prev: Some(prev), curr: Some(curr) })) == "{\"event\":"@
            + json_text(JsonView::Str(name)) + ",\"prev\":"@ + json_text(JsonView::Object(prev))
            + ",\"curr\":"@ + json_text(JsonView::Object(curr)) + "}"@,
        payload_of(Some(EventView { name, prev: None, curr: Some(curr) })) == "{\"event\":"@
            + json_text(JsonView::Str(name)) + ",\"prev\":"@ + json_text(JsonView::Null)
            + ",\"curr\":"@ + json_text(JsonView::Object(curr)) + "}"@,
        payload_of(Some(EventView { name, prev: Some(prev), curr: None })) == "{\"event\":"@
            + json_text(JsonView::Str(name)) + ",\"prev\":"@ + json_text(JsonView::Object(prev))
            + ",\"curr\":"@ + json_text(JsonView::Null) + "}"@,
        payload_of(None) == "{\"event\":\"command\",\"prev\":null,\"curr\":null}"@,
{
}

/// The variables of a script tell of the event, and those of a script that a client runs
/// of a command without states. What is configured under other names stays.
pub proof fn variables_tell_of_the_event(
    configured: Map<Seq<char>, Seq<char>>,
    e: EventView,
    name: Seq<char>,
)
    requires
        name != "MSX_EVENT"@,
        name != "MSX_PREV"@,
        name != "MSX_CURR"@,
    ensures
        ({
            let env = environment_of(configured, Some(e));
            &&& env.dom().contains("MSX_EVENT"@) && env["MSX_EVENT"@] == e.name
            &&& env.dom().contains("MSX_PREV"@) && env["MSX_PREV"@] == json_text(
                if e.prev is Some {
                    JsonView::Object(e.prev->0)
                } else {
                    JsonView::Null
                },
            )
            &&& env.dom().contains("MSX_CURR"@) && env["MSX_CURR"@] == json_text(
                if e.curr is Some {
                    JsonView::Object(e.curr->0)
                } else {
                    JsonView::Null
                },
            )
        }),
        ({
            let env = environment_of(configured, None);
            &&& env.dom().contains("MSX_EVENT"@) && env["MSX_EVENT"@] == "command"@
            &&& env.dom().contains("MSX_PREV"@) && env["MSX_PREV"@] == "null"@
            &&& env.dom().contains("MSX_CURR"@) && env["MSX_CURR"@] == "null"@
            &&& env.dom().contains(name) == configured.dom().contains(name)
            &&& configured.dom().contains(name) ==> env[name] == configured[name]
        }),
{
    reveal_strlit("MSX_EVENT");
    reveal_strlit("MSX_PREV");
    reveal_strlit("MSX_CURR");
    assert("MSX_EVENT"@.len() == 9);
    assert("MSX_PREV"@.len() == 8 && "MSX_PREV"@[4] == 'P');
    assert("MSX_CURR"@.len() == 8 && "MSX_CURR"@[4] == 'C');
}

/// A client that ran an executable is told what it wrote if it ended well, and nothing if
/// it wrote nothing. Else the client is told why: the status and what was written as
/// errors, the reason why it did not run, or that it took too long.
pub proof fn runs_are_told(
    name: Seq<char>,
    status: String,
    stdout: Vec<u8>,
    stderr: Vec<u8>,
    reason: String,
)
    ensures
        shell_outcome_of(name, ShellRun::Finished { success: true, status, stdout,
            stderr }) == Ok::<
            Option<Seq<char>>,
            Seq<char>,
        >(
            if lossy_text(kept(stdout@)).len() > 0 {
                Some(lossy_text(kept(stdout@)))
            } else {
                None
            },
        ),
        shell_outcome_of(name, ShellRun::Finished { success: false, status, stdout, stderr })
            == Err::<Option<Seq<char>>, Seq<char>>(
            "Command '"@ + name + "' failed with status "@ + status@ + ": "@ + lossy_text(
                kept(stderr@),
            ),
        ),
        shell_outcome_of(name, ShellRun::Failed(reason)) == Err::<Option<Seq<char>>, Seq<char>>(
            "Failed to execute command '"@ + name + "': "@ + reason@,
        ),
        shell_outcome_of(name, ShellRun::TimedOut) == Err::<Option<Seq<char>>, Seq<char>>(
            "Command '"@ + name + "' timed out after "@ + decimal(60) + "s"@,
        ),
{
}

/// Of an output the first 65536 bytes are kept.
pub proof fn the_beginning_is_kept(bytes: Seq<u8>, i: int)
    ensures
        bytes.len() <= 65_536 ==> kept(bytes) == bytes,
        bytes.len() > 65_536 ==> kept(bytes).len() == 65_536,
        0 <= i < kept(bytes).len() ==> kept(bytes)[i] == bytes[i],
{
}

/// What a client is answered, or what is done first: a key is read, the manifest is asked
/// for before a key is set or the capabilities are listed, the script of a command that is
/// configured is run, and all else is answered at once.
pub proof fn requests_are_served(
    c: ControllerView,
    key: Seq<char>,
    value: JsonView,
    name: Seq<char>,
)
    ensures
        first_step(c, ControlRequestView::Get { key }) == (ControlStepView::ReadKey { key }),
        first_step(c, ControlRequestView::SetKey { key, value }) == (ControlStepView::AskBeforeSet {
            key,
            value,
        }),
        first_step(c, ControlRequestView::Caps) == ControlStepView::AskForCaps,
        first_step(c, ControlRequestView::Stop) == ControlStepView::Answer(
            ControlResponseView { success: true, result: None, error: None },
        ),
        first_step(c, ControlRequestView::Status) == ControlStepView::Answer(
            ControlResponseView {
                success: true,
                result: Some(
                    JsonView::Object(
                        map![
                            "running"@ => JsonView::Bool(true),
                            "pid"@ => JsonView::Number(NumberView::Int(c.pid as int)),
                            "adapter"@ => JsonView::Str(c.adapter),
                        ],
                    ),
                ),
                error: None,
            },
        ),
        command_named(c.config.command, name) is None ==> first_step(
            c,
            ControlRequestView::Exec { name },
        ) == ControlStepView::Answer(
            ControlResponseView {
                success: false,
                result: None,
                error: Some("Unknown command: "@ + name),
            },
        ),
        command_named(c.config.command, name) matches Some(command) ==> first_step(
            c,
            ControlRequestView::Exec { name },
        ) == (ControlStepView::RunScript {
            name: command.script,
            path: script_path(c.scripts_dir, command.script),
        }),
{
    assert(status_of(c.adapter, c.pid)->Object_0 =~= map![
        "running"@ => JsonView::Bool(true),
        "pid"@ => JsonView::Number(NumberView::Int(c.pid as int)),
        "adapter"@ => JsonView::Str(c.adapter),
    ]);
}

/// The commands are listed in the order of the configuration, each with its name, what it
/// is for and its script.
pub proof fn commands_are_listed(c: ControllerView, i: int)
    requires
        0 <= i < c.config.command.len(),
    ensures
        ({
            let step = first_step(c, ControlRequestView::Commands);
            &&& step is Answer
            &&& step->Answer_0.success && step->Answer_0.error is None
            &&& step->Answer_0.result matches Some(JsonView::Array(items)) && items.len()
                == c.config.command.len() && items[i] == JsonView::Object(
                map![
                    "name"@ => JsonView::Str(c.config.command[i].name),
                    "description"@ => if c.config.command[i].description is Some {
                        JsonView::Str(c.config.command[i].description->0)
                    } else {
                        JsonView::Null
                    },
                    "script"@ => JsonView::Str(c.config.command[i].script),
                ],
            )
        }),
{
    assert(listed_command(c.config.command[i])->Object_0 =~= map![
        "name"@ => JsonView::Str(c.config.command[i].name),
        "description"@ => if c.config.command[i].description is Some {
            JsonView::Str(c.config.command[i].description->0)
        } else {
            JsonView::Null
        },
        "script"@ => JsonView::Str(c.config.command[i].script),
    ]);
}

/// Capabilities are listed in the order of the manifest, each with its name, its access
/// and what it is.
pub proof fn capabilities_are_listed(manifest: Seq<CapabilityView>, i: int)
    requires
        0 <= i < manifest.len(),
    ensures
        capabilities_listing(manifest) matches JsonView::Array(items) && items.len()
            == manifest.len() && items[i] == JsonView::Object(
            map![
                "name"@ => JsonView::Str(manifest[i].name),
                "access"@ => JsonView::Str(
                    if manifest[i].access == AccessMode::ReadWrite {
                        "ReadWrite"@
                    } else {
                        "ReadOnly"@
                    },
                ),
                "description"@ => if manifest[i].description is Some {
                    JsonView::Str(manifest[i].description->0)
                } else {
                    JsonView::Null
                },
            ],
        ),
{
    assert(listed_capability(manifest[i])->Object_0 =~= map![
        "name"@ => JsonView::Str(manifest[i].name),
        "access"@ => JsonView::Str(
            if manifest[i].access == AccessMode::ReadWrite {
                "ReadWrite"@
            } else {
                "ReadOnly"@
            },
        ),
        "description"@ => if manifest[i].description is Some {
            JsonView::Str(manifest[i].description->0)
        } else {
            JsonView::Null
        },
    ]);
}

/// A key is set only if the backend declares it writable. If it does not declare the key,
/// declares it read-only, or does not say, the client is told.
pub proof fn keys_are_checked_before_they_are_set(
    key: Seq<char>,
    value: JsonView,
    manifest: Seq<CapabilityView>,
    e: Seq<char>,
    i: int,
)
    requires
        0 <= i < manifest.len(),
        manifest[i].name == key,
        forall|j: int| 0 <= j < i ==> (#[trigger] manifest[j]).name != key,
    ensures
        manifest[i].access == AccessMode::ReadWrite ==> step_before_set(key, value,
            Ok(manifest)) == (
        ControlStepView::WriteKey { key, value }),
        manifest[i].access == AccessMode::ReadOnly ==> step_before_set(key, value, Ok(manifest))
            == ControlStepView::Answer(
            ControlResponseView {
                success: false,
                result: None,
                error: Some("read-only key: "@ + key),
            },
        ),
        step_before_set(key, value, Ok(manifest.take(i))) == ControlStepView::Answer(
            ControlResponseView {
                success: false,
                result: None,
                error: Some("unknown key: "@ + key),
            },
        ),
        step_before_set(key, value, Err(e)) == ControlStepView::Answer(
            ControlResponseView { success: false, result: None, error: Some(e) },
        ),
{
    find_is_first(manifest, key);
    find_is_first(manifest.take(i), key);
    let found = crate::capability::manifest_find(manifest, key);
    assert(manifest[i].name == key);
    let k = choose|k: int|
        0 <= k < manifest.len() && found->0 == #[trigger] manifest[k] && (found->0).name == key && (
        forall|j: int| 0 <= j < k ==> (#[trigger] manifest[j]).name != key);
    assert(k == i);
    if crate::capability::manifest_find(manifest.take(i), key) is Some {
        let few = manifest.take(i);
        let c = crate::capability::manifest_find(few, key)->0;
        let n = choose|n: int| 0 <= n < few.len() && c == #[trigger] few[n] && c.name == key;
        assert(manifest[n].name == key);
    }
}

/// A file starts with a shebang exactly if its first two bytes are `#!`.
pub proof fn shebangs_are_recognised(head: Vec<u8>, r: bool)
    requires
        call_ensures(has_shebang, (&head,), r),
    ensures
        r <==> head@.len() >= 2 && head@.take(2) == seq![0x23u8, 0x21u8],
{
    if head@.len() >= 2 {
        assert(head@.take(2) =~= seq![head@[0], head@[1]]);
        if head@.take(2) == seq![0x23u8, 0x21u8] {
            assert(head@.take(2)[0] == 0x23 && head@.take(2)[1] == 0x21);
        }
    }
}

/// A script that must start with a shebang runs exactly if it does and can be read. Else
/// it is told why.
pub proof fn scripts_without_a_shebang_do_not_run(
    path: &str,
    bytes: Vec<u8>,
    reason: String,
    read: Result<(), String>,
    unread: Result<(), String>,
)
    requires
        call_ensures(check_shebang, (path, &Ok::<Vec<u8>, String>(bytes)), read),
        call_ensures(check_shebang, (path, &Err::<Vec<u8>, String>(reason)), unread),
    ensures
        read is Ok <==> bytes@.len() >= 2 && bytes@.take(2) == seq![0x23u8, 0x21u8],
        read matches Err(e) ==> e@ == "Script '"@ + path@
            + "' is missing a shebang line (e.g., #!/bin/bash)"@,
        unread matches Err(e) && e@ == "Failed to read script '"@ + path@ + "': "@ + reason@,
{
    if bytes@.len() >= 2 {
        assert(bytes@.take(2) =~= seq![bytes@[0], bytes@[1]]);
        if bytes@.take(2) == seq![0x23u8, 0x21u8] {
            assert(bytes@.take(2)[0] == 0x23 && bytes@.take(2)[1] == 0x21);
        }
    }
}

/// A script is planned exactly if its file exists, and its extension says how it runs.
pub proof fn missing_scripts_are_told(
    path: &str,
    there: Result<ScriptKind, String>,
    gone: Result<ScriptKind, String>,
)
    requires
        call_ensures(plan_script, (path, true), there),
        call_ensures(plan_script, (path, false), gone),
    ensures
        there == Ok::<ScriptKind, String>(kind_of(path@)),
        gone matches Err(e) && e@ == "Script not found: "@ + path@,
{
}

/// What a client is answered is what came of its request: the value that was read, nothing
/// for one that was set, the output of a script or nothing, the capabilities, or the error.
pub proof fn results_are_answered(
    value: JsonValue,
    output: String,
    manifest: CapabilityManifest,
    error: String,
    got: ControlResponse,
    failed: ControlResponse,
    done: ControlResponse,
    refused: ControlResponse,
    silent: ControlResponse,
    spoken: ControlResponse,
    broken: ControlResponse,
    listed: ControlResponse,
    unlisted: ControlResponse,
)
    requires
        call_ensures(finish_get, (Ok::<JsonValue, String>(value),), got),
        call_ensures(finish_get, (Err::<JsonValue, String>(error),), failed),
        call_ensures(finish_set, (&Ok::<(), String>(()),), done),
        call_ensures(finish_set, (&Err::<(), String>(error),), refused),
        call_ensures(finish_script, (&Ok::<Option<String>, String>(None),), silent),
        call_ensures(finish_script, (&Ok::<Option<String>, String>(Some(output)),), spoken),
        call_ensures(finish_script, (&Err::<Option<String>, String>(error),), broken),
        call_ensures(finish_caps, (&Ok::<CapabilityManifest, String>(manifest),), listed),
        call_ensures(finish_caps, (&Err::<CapabilityManifest, String>(error),), unlisted),
    ensures
        got@ == (ControlResponseView { success: true, result: Some(value@), error: None }),
        done@ == (ControlResponseView { success: true, result: None, error: None }),
        silent@ == (ControlResponseView { success: true, result: None, error: None }),
        spoken@ == (ControlResponseView {
            success: true,
            result: Some(JsonView::Str(output@)),
            error: None,
        }),
        listed@ == (ControlResponseView {
            success: true,
            result: Some(capabilities_listing(manifest@)),
            error: None,
        }),
        failed@ == (ControlResponseView { success: false, result: None, error: Some(error@) }),
        refused@ == failed@ && broken@ == failed@ && unlisted@ == failed@,
{
}

/// The daemon handles events and clients as they come. It ends well when it is asked to
/// stop, and with an error when events end or no client can connect any more.
pub proof fn the_daemon_goes_on(
    reason: String,
    event: DaemonStep,
    ended: DaemonStep,
    client: DaemonStep,
    broken: DaemonStep,
    interrupted: DaemonStep,
    stopped: DaemonStep,
)
    requires
        call_ensures(daemon_step, (&DaemonInput::Event,), event),
        call_ensures(daemon_step, (&DaemonInput::EventsEnded,), ended),
        call_ensures(daemon_step, (&DaemonInput::Client,), client),
        call_ensures(daemon_step, (&DaemonInput::AcceptFailed(reason),), broken),
        call_ensures(daemon_step, (&DaemonInput::Interrupted,), interrupted),
        call_ensures(daemon_step, (&DaemonInput::StopRequested,), stopped),
    ensures
        event is HandleEvent,
        client is ServeClient,
        ended matches DaemonStep::Finish(Err(e)) && e@
            == "adapter event stream ended unexpectedly"@,
        broken matches DaemonStep::Finish(Err(e)) && e@ == reason@,
        interrupted matches DaemonStep::Finish(Ok(())),
        stopped matches DaemonStep::Finish(Ok(())),
{
    assert(event@ is HandleEvent && client@ is ServeClient);
    assert(ended@ is Finish && broken@ is Finish && interrupted@ is Finish && stopped@ is Finish);
}

/// The daemon ends well exactly if both its loop and the backend did. Of two errors the
/// first counts.
pub proof fn the_first_error_counts(
    run: Result<(), String>,
    shutdown: Result<(), String>,
    r: Result<(), String>,
)
    requires
        call_ensures(daemon_result, (run, shutdown), r),
    ensures
        r is Ok <==> run is Ok && shutdown is Ok,
        run matches Err(e) ==> (r matches Err(f) && f@ == e@),
        run is Ok ==> (shutdown matches Err(e) ==> (r matches Err(f) && f@ == e@)),
{
}

} // verus!
