//! What the command line makes of its arguments and of the answers of the daemon.

use crate::capability::opt_string;
use crate::control::{ControlResponse, ControlResponseView};
use crate::json::{json_parse, json_pretty, json_text, opt_json, parse_json, to_pretty, to_text};
use crate::names::texts;
use crate::text::{decimal, joined, joined3, u64_to_text};
use crate::value::{
    json_as_str, json_as_u64, json_member, text_json, value_result, value_view, values_view,
    JsonValue, JsonView, NumberView,
};
use vstd::prelude::*;

verus! {

/// The value that an argument stands for: JSON where it is JSON, else the text
/// itself. `json` says what the text is as JSON.
pub open spec fn value_of_argument(s: Seq<char>, json: Option<JsonView>) -> JsonView {
    match json {
        Some(v) => v,
        None => text_json(s),
    }
}

/// The value that an argument stands for, given what it is as JSON.
pub fn choose_value(s: &str, json: Option<JsonValue>) -> (r: JsonValue)
    ensures
        r@ == value_of_argument(s@, opt_json(json)),
{
    match json {
        Some(v) => v,
        None => JsonValue::text(s),
    }
}

/// The value that an argument stands for.
pub fn parse_value(s: &str) -> (r: JsonValue)
    ensures
        r@ == value_of_argument(s@, json_parse(s@)),
{
    let json = parse_json(s);
    choose_value(s, json)
}

/// What an answer of the daemon comes to: the result, or why there is none.
pub open spec fn answer_value(r: ControlResponseView) -> Result<JsonView, Seq<char>> {
    if r.success {
        match r.result {
            Some(v) => Ok(v),
            None => Ok(JsonView::Null),
        }
    } else {
        match r.error {
            Some(e) => Err(e),
            None => Err("Unknown error"@),
        }
    }
}

/// What an answer of the daemon comes to.
pub fn handle_response(response: ControlResponse) -> (r: Result<JsonValue, String>)
    ensures
        value_result(r) == answer_value(response@),
{
    broadcast use value_view;

    if response.success {
        match response.result {
            Some(v) => Ok(v),
            None => Ok(JsonValue::Null),
        }
    } else {
        match response.error {
            Some(e) => Err(e),
            None => Err("Unknown error".to_owned()),
        }
    }
}

/// The text under a name, a dash where there is none.
pub open spec fn text_or_dash(v: JsonView, name: Seq<char>) -> Seq<char> {
    match json_as_str(json_member(v, name)) {
        Some(s) => s,
        None => "-"@,
    }
}

fn text_or(v: &JsonValue, name: &str, default: &str) -> (r: String)
    ensures
        r@ == (match json_as_str(json_member(v@, name@)) {
            Some(s) => s,
            None => default@,
        }),
{
    let member = v.member(name);
    match member.as_str() {
        Some(s) => s.to_owned(),
        None => default.to_owned(),
    }
}

/// One capability, as it is printed.
pub open spec fn capability_line(cap: JsonView) -> Seq<char> {
    "  "@ + text_or_dash(cap, "name"@) + " ("@ + text_or_dash(cap, "access"@) + "): "@
        + text_or_dash(cap, "description"@)
}

/// The list of capabilities, as it is printed.
pub open spec fn capability_lines(v: JsonView) -> Seq<Seq<char>> {
    match v {
        JsonView::Array(caps) => seq![
            "Capabilities ("@ + decimal(caps.len()) + "):"@,
        ] + Seq::new(caps.len(), |i: int| capability_line(caps[i])),
        _ => Seq::empty(),
    }
}

/// The list of capabilities, line by line.
pub fn caps_lines(v: &JsonValue) -> (r: Vec<String>)
    ensures
        texts(r@) == capability_lines(v@),
{
    let mut r: Vec<String> = Vec::new();
    match v.as_array() {
        Some(caps) => {
            let ghost all = values_view(caps@);
            let ghost want = capability_lines(v@);
            r.push(joined3("Capabilities (", u64_to_text(caps.len() as u64).as_str(), "):"));
            assert(texts(r@) =~= want.take(1));
            for i in 0..caps.len()
                invariant
                    all == values_view(caps@),
                    v@ == JsonView::Array(all),
                    want == capability_lines(v@),
                    texts(r@) == want.take(i + 1),
            {
                let ghost before = r@;
                let cap = &caps[i];
                let mut line = joined3("  ", text_or(cap, "name", "-").as_str(), " (");
                line = joined3(line.as_str(), text_or(cap, "access", "-").as_str(), "): ");
                line = joined(line.as_str(), text_or(cap, "description", "-").as_str());
                assert(line@ =~= capability_line(all[i as int]));
                r.push(line);
                assert(texts(r@) =~= texts(before).push(line@));
                assert(want.take(i + 2) =~= want.take(i + 1).push(want[i + 1]));
            }
            assert(want.take(want.len() as int) =~= want);
        },
        None => {
            assert(texts(r@) =~= Seq::empty());
        },
    }
    r
}

/// What a command is for: its description, else its script, else a dash.
pub open spec fn command_purpose(cmd: JsonView) -> Seq<char> {
    match json_as_str(json_member(cmd, "description"@)) {
        Some(s) => s,
        None => text_or_dash(cmd, "script"@),
    }
}

/// One command, as it is printed.
pub open spec fn command_line(cmd: JsonView) -> Seq<char> {
    "  "@ + text_or_dash(cmd, "name"@) + ": "@ + command_purpose(cmd)
}

/// The list of commands, as it is printed.
pub open spec fn command_lines(v: JsonView) -> Seq<Seq<char>> {
    match v {
        JsonView::Array(cmds) => if cmds.len() == 0 {
            seq!["No commands defined in config"@]
        } else {
            seq!["Available commands:"@] + Seq::new(cmds.len(), |i: int| command_line(cmds[i]))
        },
        _ => Seq::empty(),
    }
}

/// The list of commands, line by line.
pub fn commands_lines(v: &JsonValue) -> (r: Vec<String>)
    ensures
        texts(r@) == command_lines(v@),
{
    let mut r: Vec<String> = Vec::new();
    match v.as_array() {
        Some(cmds) => {
            let ghost all = values_view(cmds@);
            let ghost want = command_lines(v@);
            if cmds.len() == 0 {
                r.push("No commands defined in config".to_owned());
                assert(texts(r@) =~= want);
                return r;
            }
            r.push("Available commands:".to_owned());
            assert(texts(r@) =~= want.take(1));
            for i in 0..cmds.len()
                invariant
                    all == values_view(cmds@),
                    all.len() > 0,
                    v@ == JsonView::Array(all),
                    want == command_lines(v@),
                    texts(r@) == want.take(i + 1),
            {
                let ghost before = r@;
                let cmd = &cmds[i];
                let script = text_or(cmd, "script", "-");
                let purpose = text_or(cmd, "description", script.as_str());
                let mut line = joined3("  ", text_or(cmd, "name", "-").as_str(), ": ");
                line = joined(line.as_str(), purpose.as_str());
                assert(line@ =~= command_line(all[i as int]));
                r.push(line);
                assert(texts(r@) =~= texts(before).push(line@));
                assert(want.take(i + 2) =~= want.take(i + 1).push(want[i + 1]));
            }
            assert(want.take(want.len() as int) =~= want);
        },
        None => {
            assert(texts(r@) =~= Seq::empty());
        },
    }
    r
}

/// The status of the daemon, as it is printed.
pub open spec fn status_text(v: JsonView) -> Seq<Seq<char>> {
    seq!["Status: running"@] + (match json_as_u64(json_member(v, "pid"@)) {
        Some(pid) => seq!["PID: "@ + decimal(pid as nat)],
        None => Seq::empty(),
    }) + (match json_as_str(json_member(v, "adapter"@)) {
        Some(adapter) => seq!["Adapter: "@ + adapter],
        None => Seq::empty(),
    })
}

/// The status of the daemon, line by line.
pub fn status_lines(v: &JsonValue) -> (r: Vec<String>)
    ensures
        texts(r@) == status_text(v@),
{
    let mut r: Vec<String> = Vec::new();
    r.push("Status: running".to_owned());
    match v.member("pid").as_u64() {
        Some(pid) => {
            r.push(joined("PID: ", u64_to_text(pid).as_str()));
        },
        None => {},
    }
    let adapter = v.member("adapter");
    match adapter.as_str() {
        Some(name) => {
            r.push(joined("Adapter: ", name));
        },
        None => {},
    }
    assert(texts(r@) =~= status_text(v@));
    r
}

/// What is printed for the value of a key.
pub fn get_line(v: &JsonValue) -> (r: String)
    ensures
        r@ == json_pretty(v@),
{
    to_pretty(v)
}

/// What is printed for the output of a command, if it has any.
pub fn exec_line(v: &JsonValue) -> (r: Option<String>)
    ensures
        opt_string(r) == (if v@ == JsonView::Null {
            None
        } else {
            Some(json_text(v@))
        }),
{
    if v.is_null() {
        None
    } else {
        Some(to_text(v))
    }
}

/// An answer that the daemon made of a value comes to that value, and a refusal
/// to its message.
pub proof fn answers_come_through(v: JsonView, e: Seq<char>)
    ensures
        answer_value(crate::control::answer(v)) == Ok::<JsonView, Seq<char>>(v),
        answer_value(crate::control::empty_answer()) == Ok::<JsonView, Seq<char>>(JsonView::Null),
        answer_value(crate::control::refusal(e)) == Err::<JsonView, Seq<char>>(e),
{
}

/// A value on the command line is what it says as JSON, and a text where it says nothing.
pub proof fn arguments_are_values(s: Seq<char>, v: JsonView)
    ensures
        value_of_argument(s, Some(v)) == v,
        value_of_argument(s, None) == JsonView::Str(s),
{
}

/// What a response comes to: its result, nothing where it has none, or its error.
pub proof fn responses_come_to(v: Option<JsonView>, e: Option<Seq<char>>, w: JsonView, f: Seq<char>)
    ensures
        answer_value(ControlResponseView { success: true, result: Some(w), error: e }) == Ok::<
            JsonView,
            Seq<char>,
        >(w),
        answer_value(ControlResponseView { success: true, result: None, error: e }) == Ok::<
            JsonView,
            Seq<char>,
        >(JsonView::Null),
        answer_value(ControlResponseView { success: false, result: v, error: Some(f) }) == Err::<
            JsonView,
            Seq<char>,
        >(f),
        answer_value(ControlResponseView { success: false, result: v, error: None }) == Err::<
            JsonView,
            Seq<char>,
        >("Unknown error"@),
{
}

/// Capabilities are printed under a line with their number, one line for each, with a dash
/// for what is not there. What is no list is not printed.
pub proof fn capabilities_are_printed(
    caps: Seq<JsonView>,
    cap: Map<Seq<char>, JsonView>,
    name: Seq<char>,
    access: Seq<char>,
    description: Seq<char>,
    i: int,
    other: JsonView,
)
    requires
        0 <= i < caps.len(),
        other !is Array,
    ensures
        capability_lines(JsonView::Array(caps)).len() == caps.len() + 1,
        capability_lines(JsonView::Array(caps))[0] == "Capabilities ("@ + decimal(caps.len())
            + "):"@,
        caps[i] == JsonView::Object(
            cap.insert("name"@, JsonView::Str(name)).insert("access"@,
                JsonView::Str(access)).insert(
                "description"@,
                JsonView::Str(description),
            ),
        ) ==> capability_lines(JsonView::Array(caps))[i + 1] == "  "@ + name + " ("@ + access
            + "): "@ + description,
        caps[i] == JsonView::Object(Map::empty()) ==> capability_lines(JsonView::Array(caps))[i + 1]
            == "  "@ + "-"@ + " ("@ + "-"@ + "): "@ + "-"@,
        capability_lines(other).len() == 0,
{
    reveal_strlit("name");
    reveal_strlit("access");
    reveal_strlit("description");
    assert("name"@.len() == 4);
    assert("access"@.len() == 6);
    assert("description"@.len() == 11);
}

/// Commands are printed one line for each, with what they are for or else their script, and
/// a dash for what is not there. That there are none is said.
pub proof fn commands_are_printed(
    cmds: Seq<JsonView>,
    cmd: Map<Seq<char>, JsonView>,
    name: Seq<char>,
    script: Seq<char>,
    description: Seq<char>,
    i: int,
    other: JsonView,
)
    requires
        0 <= i < cmds.len(),
        other !is Array,
    ensures
        command_lines(JsonView::Array(Seq::empty())) == seq!["No commands defined in config"@],
        command_lines(JsonView::Array(cmds)).len() == cmds.len() + 1,
        command_lines(JsonView::Array(cmds))[0] == "Available commands:"@,
        cmds[i] == JsonView::Object(
            cmd.insert("name"@, JsonView::Str(name)).insert(
                "description"@,
                JsonView::Str(description),
            ),
        ) ==> command_lines(JsonView::Array(cmds))[i + 1] == "  "@ + name + ": "@ + description,
        cmds[i] == JsonView::Object(
            cmd.insert("name"@, JsonView::Str(name)).insert("script"@,
                JsonView::Str(script)).insert(
                "description"@,
                JsonView::Null,
            ),
        ) ==> command_lines(JsonView::Array(cmds))[i + 1] == "  "@ + name + ": "@ + script,
        cmds[i] == JsonView::Object(Map::empty()) ==> command_lines(JsonView::Array(cmds))[i + 1]
            == "  "@ + "-"@ + ": "@ + "-"@,
        command_lines(other).len() == 0,
{
    reveal_strlit("name");
    reveal_strlit("script");
    reveal_strlit("description");
    assert("name"@.len() == 4);
    assert("script"@.len() == 6);
    assert("description"@.len() == 11);
}

/// The status is printed with the process and the adapter, as far as they are there.
pub proof fn the_status_is_printed(
    v: Map<Seq<char>, JsonView>,
    pid: u64,
    adapter: Seq<char>,
)
    ensures
        status_text(
            JsonView::Object(
                v.insert("pid"@, JsonView::Number(NumberView::Int(pid as int))).insert(
                    "adapter"@,
                    JsonView::Str(adapter),
                ),
            ),
        ) == seq![
            "Status: running"@,
            "PID: "@ + decimal(pid as nat),
            "Adapter: "@ + adapter,
        ],
        status_text(JsonView::Object(v.remove("pid"@).insert("adapter"@, JsonView::Str(adapter))))
            == seq!["Status: running"@, "Adapter: "@ + adapter],
        status_text(
            JsonView::Object(
                v.remove("adapter"@).insert("pid"@, JsonView::Number(NumberView::Int(pid as int))),
            ),
        ) == seq!["Status: running"@, "PID: "@ + decimal(pid as nat)],
        status_text(JsonView::Null) == seq!["Status: running"@],
{
    reveal_strlit("pid");
    reveal_strlit("adapter");
    assert("pid"@.len() == 3);
    assert("adapter"@.len() == 7);
}

/// What a script came to is printed as JSON, and nothing where it came to nothing.
pub proof fn outputs_are_printed(v: JsonValue, r: Option<String>)
    requires
        call_ensures(exec_line, (&v,), r),
    ensures
        v@ == JsonView::Null <==> r is None,
        r matches Some(line) ==> line@ == json_text(v@),
{
}

} // verus!
