//! The line protocol between the controller and a bridge process.
//!
//! Every message is one JSON object on a line of its own. Requests carry a
//! number, and the response to a request carries the same number. Events carry
//! none.
//!
//! ```json
//! {"id":1,"method":"get","params":{"key":"workspace"}}
//! {"id":1,"result":{"id":2,"name":"main"}}
//! {"event":"workspace_change","prev":{"id":1},"curr":{"id":2}}
//! ```

use crate::capability::opt_string;
use crate::json::{json_text, opt_json, to_text};
use crate::names::texts;
use crate::text::{
    decimal, joined, lemma_split_at, occurs_at, split_at_first, u64_to_text,
};
use crate::value::{
    one_field, state_of_one, state_of_two, text_json, two_fields, value_view, values_view,
    JsonValue, JsonView,
};
use vstd::prelude::*;
use vstd::string::*;

verus! {

/// A request to a bridge.
#[derive(Debug)]
pub struct Request {
    /// The number that the response will carry.
    pub id: u64,
    /// "get", "set", "caps" or "subscribe".
    pub method: String,
    /// What the method needs, `Null` for nothing.
    pub params: JsonValue,
}

/// The response of a bridge.
#[derive(Debug)]
pub struct Response {
    /// The number of the request.
    pub id: u64,
    /// What was asked for.
    pub result: Option<JsonValue>,
    /// Why the request failed.
    pub error: Option<String>,
}

/// An event that a bridge pushes.
#[derive(Debug)]
pub struct Event {
    /// The name of the event.
    pub event: String,
    /// The state before the event.
    pub prev: Option<JsonValue>,
    /// The state after the event.
    pub curr: Option<JsonValue>,
}

pub struct RequestView {
    pub id: u64,
    pub method: Seq<char>,
    pub params: JsonView,
}

pub struct ResponseView {
    pub id: u64,
    pub result: Option<JsonView>,
    pub error: Option<Seq<char>>,
}

pub struct BridgeEventView {
    pub event: Seq<char>,
    pub prev: Option<JsonView>,
    pub curr: Option<JsonView>,
}

impl View for Request {
    type V = RequestView;

    open spec fn view(&self) -> RequestView {
        RequestView { id: self.id, method: self.method@, params: self.params@ }
    }
}

impl View for Response {
    type V = ResponseView;

    open spec fn view(&self) -> ResponseView {
        ResponseView { id: self.id, result: opt_json(self.result), error: opt_string(self.error) }
    }
}

impl View for Event {
    type V = BridgeEventView;

    open spec fn view(&self) -> BridgeEventView {
        BridgeEventView {
            event: self.event@,
            prev: opt_json(self.prev),
            curr: opt_json(self.curr),
        }
    }
}

/// A string as JSON.
pub open spec fn quoted(s: Seq<char>) -> Seq<char> {
    json_text(text_json(s))
}

/// A member of an object, behind another member.
pub open spec fn next_member(name: Seq<char>, value: Seq<char>) -> Seq<char> {
    ",\""@ + name + "\":"@ + value
}

/// The same member if there is a value for it.
pub open spec fn optional_member(name: Seq<char>, value: Option<JsonView>) -> Seq<char> {
    match value {
        Some(v) => next_member(name, json_text(v)),
        None => ""@,
    }
}

/// A request on the wire.
pub open spec fn request_text(r: RequestView) -> Seq<char> {
    "{\"id\":"@ + decimal(r.id as nat) + next_member("method"@, quoted(r.method)) + (if r.params
        == JsonView::Null {
        ""@
    } else {
        next_member("params"@, json_text(r.params))
    }) + "}"@
}

/// A response on the wire.
pub open spec fn response_text(r: ResponseView) -> Seq<char> {
    "{\"id\":"@ + decimal(r.id as nat) + optional_member("result"@, r.result) + (match r.error {
        Some(e) => next_member("error"@, quoted(e)),
        None => ""@,
    }) + "}"@
}

/// An event on the wire.
pub open spec fn event_text(e: BridgeEventView) -> Seq<char> {
    "{\"event\":"@ + quoted(e.event) + optional_member("prev"@, e.prev) + optional_member(
        "curr"@,
        e.curr,
    ) + "}"@
}

/// No line break stands in a text.
pub open spec fn single_line(s: Seq<char>) -> bool {
    forall|i: int| 0 <= i < s.len() ==> #[trigger] s[i] != '\n'
}

/// A text that is a line: one line break, at its end.
pub open spec fn is_line(s: Seq<char>) -> bool {
    s.len() > 0 && s.last() == '\n' && single_line(s.drop_last())
}

pub proof fn lemma_single_line_add(a: Seq<char>, b: Seq<char>)
    requires
        single_line(a),
        single_line(b),
    ensures
        single_line(a + b),
{
}

/// Decimal digits hold no line break.
pub proof fn lemma_single_line_decimal(n: nat)
    ensures
        single_line(decimal(n)),
    decreases n,
{
    if n >= 10 {
        lemma_single_line_decimal(n / 10);
    }
}

fn append_text(out: &mut String, part: &str)
    requires
        single_line(old(out)@),
        single_line(part@),
    ensures
        final(out)@ == old(out)@ + part@,
        single_line(final(out)@),
{
    proof {
        lemma_single_line_add(out@, part@);
    }
    out.append(part);
}

/// Adds a member of an object, behind another member.
pub fn add_member(out: &mut String, name: &str, value: &str)
    requires
        single_line(old(out)@),
        single_line(name@),
        single_line(value@),
    ensures
        final(out)@ == old(out)@ + next_member(name@, value@),
        single_line(final(out)@),
{
    let ghost before = out@;
    proof {
        reveal_strlit(",\"");
        reveal_strlit("\":");
    }
    append_text(out, ",\"");
    append_text(out, name);
    append_text(out, "\":");
    append_text(out, value);
    assert(out@ =~= before + next_member(name@, value@));
}

/// A value as JSON.
pub fn value_text(v: &JsonValue) -> (r: String)
    ensures
        r@ == json_text(v@),
        single_line(r@),
{
    let r = to_text(v);
    assert(single_line(r@)) by {
        assert forall|i: int| 0 <= i < r@.len() implies #[trigger] r@[i] != '\n' by {
            assert(r@.contains(r@[i]));
        }
    }
    r
}

/// Adds a member of an object if there is a value for it.
fn add_optional(out: &mut String, name: &str, value: &Option<JsonValue>)
    requires
        single_line(old(out)@),
        single_line(name@),
    ensures
        final(out)@ == old(out)@ + optional_member(name@, opt_json(*value)),
        single_line(final(out)@),
{
    match value {
        Some(v) => {
            let text = value_text(v);
            add_member(out, name, text.as_str());
        },
        None => {
            proof {
                reveal_strlit("");
            }
            assert(out@ + ""@ =~= out@);
        },
    }
}

impl Request {
    /// Asks for the value of a key.
    pub fn get(id: u64, key: &str) -> (r: Request)
        ensures
            r@ == (RequestView {
                id,
                method: "get"@,
                params: JsonView::Object(one_field("key"@, text_json(key@))),
            }),
    {
        broadcast use value_view;

        Request {
            id,
            method: "get".to_owned(),
            params: JsonValue::Object(state_of_one("key", JsonValue::text(key))),
        }
    }

    /// Asks to set a key.
    pub fn set(id: u64, key: &str, value: JsonValue) -> (r: Request)
        ensures
            r@ == (RequestView {
                id,
                method: "set"@,
                params: JsonView::Object(
                    two_fields("key"@, text_json(key@), "value"@, value@),
                ),
            }),
    {
        broadcast use value_view;

        Request {
            id,
            method: "set".to_owned(),
            params: JsonValue::Object(state_of_two("key", JsonValue::text(key), "value", value)),
        }
    }

    /// Asks what the bridge supports.
    pub fn caps(id: u64) -> (r: Request)
        ensures
            r@ == (RequestView { id, method: "caps"@, params: JsonView::Null }),
    {
        broadcast use value_view;

        Request { id, method: "caps".to_owned(), params: JsonValue::Null }
    }

    /// Asks for events.
    pub fn subscribe(id: u64, events: &Vec<String>) -> (r: Request)
        ensures
            r@ == (RequestView {
                id,
                method: "subscribe"@,
                params: JsonView::Object(one_field("events"@, names_json(texts(events@)))),
            }),
    {
        broadcast use value_view;

        let ghost wanted = names_json(texts(events@))->Array_0;
        let mut list: Vec<JsonValue> = Vec::new();
        for i in 0..events.len()
            invariant
                wanted == names_json(texts(events@))->Array_0,
                values_view(list@) == wanted.take(i as int),
        {
            let ghost before = list@;
            let name = JsonValue::text(events[i].as_str());
            list.push(name);
            assert(values_view(list@) =~= values_view(before).push(name@));
            assert(wanted.take(i + 1) =~= wanted.take(i as int).push(wanted[i as int]));
        }
        assert(wanted.take(wanted.len() as int) =~= wanted);
        Request {
            id,
            method: "subscribe".to_owned(),
            params: JsonValue::Object(state_of_one("events", JsonValue::Array(list))),
        }
    }

    /// The request as JSON.
    pub fn encode(&self) -> (r: String)
        ensures
            r@ == request_text(self@),
            single_line(r@),
    {
        let mut out = String::new();
        proof {
            reveal_strlit("{\"id\":");
            reveal_strlit("method");
            reveal_strlit("params");
            reveal_strlit("}");
            reveal_strlit("");
            lemma_single_line_decimal(self.id as nat);
        }
        append_text(&mut out, "{\"id\":");
        append_text(&mut out, u64_to_text(self.id).as_str());
        add_member(&mut out, "method", value_text(&JsonValue::text(self.method.as_str())).as_str());
        if !self.params.is_null() {
            add_member(&mut out, "params", value_text(&self.params).as_str());
        }
        append_text(&mut out, "}");
        assert(out@ =~= request_text(self@));
        out
    }
}

/// An array of names.
pub open spec fn names_json(names: Seq<Seq<char>>) -> JsonView {
    JsonView::Array(Seq::new(names.len(), |i: int| text_json(names[i])))
}

impl Response {
    /// The response to a request that succeeded.
    pub fn success(id: u64, result: JsonValue) -> (r: Response)
        ensures
            r@ == (ResponseView { id, result: Some(result@), error: None }),
    {
        Response { id, result: Some(result), error: None }
    }

    /// The response to a request that failed.
    pub fn error(id: u64, message: &str) -> (r: Response)
        ensures
            r@ == (ResponseView { id, result: None, error: Some(message@) }),
    {
        Response { id, result: None, error: Some(message.to_owned()) }
    }

    /// The response as JSON.
    pub fn encode(&self) -> (r: String)
        ensures
            r@ == response_text(self@),
            single_line(r@),
    {
        let mut out = String::new();
        proof {
            reveal_strlit("{\"id\":");
            reveal_strlit("result");
            reveal_strlit("error");
            reveal_strlit("}");
            reveal_strlit("");
            lemma_single_line_decimal(self.id as nat);
        }
        append_text(&mut out, "{\"id\":");
        append_text(&mut out, u64_to_text(self.id).as_str());
        add_optional(&mut out, "result", &self.result);
        match &self.error {
            Some(e) => {
                add_member(&mut out, "error", value_text(&JsonValue::text(e.as_str())).as_str());
            },
            None => {},
        }
        append_text(&mut out, "}");
        assert(out@ =~= response_text(self@));
        out
    }
}

impl Event {
    /// An event without states.
    pub fn new(name: &str) -> (e: Event)
        ensures
            e@ == (BridgeEventView { event: name@, prev: None, curr: None }),
    {
        Event { event: name.to_owned(), prev: None, curr: None }
    }

    /// The same event with a state before it.
    pub fn with_prev(self, prev: JsonValue) -> (e: Event)
        ensures
            e@ == (BridgeEventView { prev: Some(prev@), ..self@ }),
    {
        Event { event: self.event, prev: Some(prev), curr: self.curr }
    }

    /// The same event with a state after it.
    pub fn with_curr(self, curr: JsonValue) -> (e: Event)
        ensures
            e@ == (BridgeEventView { curr: Some(curr@), ..self@ }),
    {
        Event { event: self.event, prev: self.prev, curr: Some(curr) }
    }

    /// The event as JSON.
    pub fn encode(&self) -> (r: String)
        ensures
            r@ == event_text(self@),
            single_line(r@),
    {
        let mut out = String::new();
        proof {
            reveal_strlit("{\"event\":");
            reveal_strlit("prev");
            reveal_strlit("curr");
            reveal_strlit("}");
        }
        append_text(&mut out, "{\"event\":");
        append_text(&mut out, value_text(&JsonValue::text(self.event.as_str())).as_str());
        add_optional(&mut out, "prev", &self.prev);
        add_optional(&mut out, "curr", &self.curr);
        append_text(&mut out, "}");
        assert(out@ =~= event_text(self@));
        out
    }
}

/// A message as a line of its own.
pub fn frame(message: &str) -> (r: String)
    requires
        single_line(message@),
    ensures
        r@ == message@ + "\n"@,
        is_line(r@),
{
    proof {
        reveal_strlit("\n");
    }
    let r = joined(message, "\n");
    assert(r@.drop_last() =~= message@);
    r
}

/// Whoever reads up to the first line break of what was written gets the message
/// back, and what follows is left for the next read.
pub proof fn line_reads_back(message: Seq<char>, rest: Seq<char>)
    requires
        single_line(message),
    ensures
        split_at_first(message + "\n"@ + rest, "\n"@) == Some((message, rest)),
{
    reveal_strlit("\n");
    let s = message + "\n"@ + rest;
    let n = message.len() as int;
    assert(s.subrange(n, n + 1) =~= "\n"@);
    assert(occurs_at(s, "\n"@, n));
    assert forall|j: int| 0 <= j < n implies !occurs_at(s, "\n"@, j) by {
        if occurs_at(s, "\n"@, j) {
            assert(s.subrange(j, j + 1)[0] == '\n');
            assert(s[j] == message[j]);
        }
    }
    lemma_split_at(s, "\n"@, n);
    assert(s.take(n) =~= message);
    assert(s.skip(n + 1) =~= rest);
}

/// A request is an object with its number, its method and, where it has some, its
/// parameters.
pub proof fn requests_are_written(id: u64, method: Seq<char>, params: JsonView)
    ensures
        request_text(RequestView { id, method, params: JsonView::Null }) == "{\"id\":"@ + decimal(
            id as nat,
        ) + ",\"method\":"@ + json_text(JsonView::Str(method)) + "}"@,
        params != JsonView::Null ==> request_text(RequestView { id, method, params })
            == "{\"id\":"@ + decimal(id as nat) + ",\"method\":"@ + json_text(
            JsonView::Str(method),
        ) + ",\"params\":"@ + json_text(params) + "}"@,
{
    reveal_strlit(",\"");
    reveal_strlit("\":");
    reveal_strlit("");
    reveal_strlit("method");
    reveal_strlit(",\"method\":");
    assert(",\""@ + "method"@ + "\":"@ =~= ",\"method\":"@);
    reveal_strlit("params");
    reveal_strlit(",\"params\":");
    assert(",\""@ + "params"@ + "\":"@ =~= ",\"params\":"@);
    let head = "{\"id\":"@ + decimal(id as nat);
    let (m, p) = (json_text(JsonView::Str(method)), json_text(params));
    assert(head + (",\"method\":"@ + m) + ""@ + "}"@ =~= head + ",\"method\":"@ + m + "}"@);
    assert(head + (",\"method\":"@ + m) + (",\"params\":"@ + p) + "}"@ =~= head
        + ",\"method\":"@ + m + ",\"params\":"@ + p + "}"@);
}

/// A response is an object with the number of its request, and its result and its error
/// where it has them.
pub proof fn responses_are_written(id: u64, result: JsonView, error: Seq<char>)
    ensures
        response_text(ResponseView { id, result: Some(result), error: None }) == "{\"id\":"@
            + decimal(id as nat) + ",\"result\":"@ + json_text(result) + "}"@,
        response_text(ResponseView { id, result: None, error: Some(error) }) == "{\"id\":"@
            + decimal(id as nat) + ",\"error\":"@ + json_text(JsonView::Str(error)) + "}"@,
        response_text(ResponseView { id, result: None, error: None }) == "{\"id\":"@ + decimal(
            id as nat,
        ) + "}"@,
        response_text(ResponseView { id, result: Some(result), error: Some(error) }) == "{\"id\":"@
            + decimal(id as nat) + ",\"result\":"@ + json_text(result) + ",\"error\":"@ + json_text(
            JsonView::Str(error),
        ) + "}"@,
{
    reveal_strlit(",\"");
    reveal_strlit("\":");
    reveal_strlit("");
    reveal_strlit("result");
    reveal_strlit(",\"result\":");
    assert(",\""@ + "result"@ + "\":"@ =~= ",\"result\":"@);
    reveal_strlit("error");
    reveal_strlit(",\"error\":");
    assert(",\""@ + "error"@ + "\":"@ =~= ",\"error\":"@);
    let head = "{\"id\":"@ + decimal(id as nat);
    let (r, e) = (json_text(result), json_text(JsonView::Str(error)));
    assert(head + (",\"result\":"@ + r) + ""@ + "}"@ =~= head + ",\"result\":"@ + r + "}"@);
    assert(head + ""@ + (",\"error\":"@ + e) + "}"@ =~= head + ",\"error\":"@ + e + "}"@);
    assert(head + ""@ + ""@ + "}"@ =~= head + "}"@);
    assert(head + (",\"result\":"@ + r) + (",\"error\":"@ + e) + "}"@ =~= head
        + ",\"result\":"@ + r + ",\"error\":"@ + e + "}"@);
}

/// An event is an object with its name, and the states before and after it where it has
/// them.
pub proof fn events_are_written(event: Seq<char>, prev: JsonView, curr: JsonView)
    ensures
        event_text(BridgeEventView { event, prev: Some(prev), curr: Some(curr) })
            == "{\"event\":"@ + json_text(JsonView::Str(event)) + ",\"prev\":"@ + json_text(prev)
            + ",\"curr\":"@ + json_text(curr) + "}"@,
        event_text(BridgeEventView { event, prev: None, curr: Some(curr) }) == "{\"event\":"@
            + json_text(JsonView::Str(event)) + ",\"curr\":"@ + json_text(curr) + "}"@,
        event_text(BridgeEventView { event, prev: Some(prev), curr: None }) == "{\"event\":"@
            + json_text(JsonView::Str(event)) + ",\"prev\":"@ + json_text(prev) + "}"@,
        event_text(BridgeEventView { event, prev: None, curr: None }) == "{\"event\":"@ + json_text(
            JsonView::Str(event),
        ) + "}"@,
{
    reveal_strlit(",\"");
    reveal_strlit("\":");
    reveal_strlit("");
    reveal_strlit("prev");
    reveal_strlit(",\"prev\":");
    assert(",\""@ + "prev"@ + "\":"@ =~= ",\"prev\":"@);
    reveal_strlit("curr");
    reveal_strlit(",\"curr\":");
    assert(",\""@ + "curr"@ + "\":"@ =~= ",\"curr\":"@);
    let head = "{\"event\":"@ + json_text(JsonView::Str(event));
    let (p, c) = (json_text(prev), json_text(curr));
    assert(head + (",\"prev\":"@ + p) + (",\"curr\":"@ + c) + "}"@ =~= head + ",\"prev\":"@ + p
        + ",\"curr\":"@ + c + "}"@);
    assert(head + ""@ + (",\"curr\":"@ + c) + "}"@ =~= head + ",\"curr\":"@ + c + "}"@);
    assert(head + (",\"prev\":"@ + p) + ""@ + "}"@ =~= head + ",\"prev\":"@ + p + "}"@);
    assert(head + ""@ + ""@ + "}"@ =~= head + "}"@);
}

/// A message is a line exactly if it ends in a line break and has no other.
pub proof fn lines_end_in_a_break(s: Seq<char>, i: int)
    ensures
        is_line(s.push('\n')) <==> single_line(s),
        single_line(s) && 0 <= i < s.len() ==> s[i] != '\n',
        0 <= i < s.len() && s[i] == '\n' ==> !single_line(s),
        is_line(s) ==> s.len() > 0 && s[s.len() - 1] == '\n',
{
    assert(s.push('\n').drop_last() =~= s);
}

/// A list of names is an array of texts, in order.
pub proof fn names_are_listed(names: Seq<Seq<char>>, i: int)
    requires
        0 <= i < names.len(),
    ensures
        names_json(names) is Array,
        names_json(names)->Array_0.len() == names.len(),
        names_json(names)->Array_0[i] == JsonView::Str(names[i]),
{
}

/// A request carries its number, its method and what the method needs: a key, a key and a
/// value, nothing, or the names of the events that are wanted.
pub proof fn requests_are_built(
    id: u64,
    key: &str,
    value: JsonValue,
    events: Vec<String>,
    get: Request,
    set: Request,
    caps: Request,
    subscribe: Request,
)
    requires
        call_ensures(Request::get, (id, key), get),
        call_ensures(Request::set, (id, key, value), set),
        call_ensures(Request::caps, (id,), caps),
        call_ensures(Request::subscribe, (id, &events), subscribe),
    ensures
        get@ == (RequestView {
            id,
            method: "get"@,
            params: JsonView::Object(map!["key"@ => JsonView::Str(key@)]),
        }),
        set@ == (RequestView {
            id,
            method: "set"@,
            params: JsonView::Object(map!["key"@ => JsonView::Str(key@), "value"@ => value@]),
        }),
        caps@ == (RequestView { id, method: "caps"@, params: JsonView::Null }),
        subscribe@ == (RequestView {
            id,
            method: "subscribe"@,
            params: JsonView::Object(map!["events"@ => names_json(texts(events@))]),
        }),
{
    assert(get@.params->Object_0 =~= map!["key"@ => JsonView::Str(key@)]);
    assert(set@.params->Object_0 =~= map!["key"@ => JsonView::Str(key@), "value"@ => value@]);
    assert(subscribe@.params->Object_0 =~= map!["events"@ => names_json(texts(events@))]);
}

} // verus!
