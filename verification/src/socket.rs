//! An adapter that talks to a bridge process over two sockets.

use crate::capability::{
    clone_opt, opt_string, AccessMode, Capability, CapabilityManifest, CapabilityView,
};
use crate::config::derived_sockets;
use crate::event::{EventView, RawEvent};
use crate::names::NameSet;
use crate::protocol::{names_json, Event, Request, RequestView, Response};
use crate::text::{
    decimal, joined, joined3, lowercase_text, str_eq, to_lowercase, trim, trimmed, u64_to_text, unit_result,
};
use crate::value::{
    json_as_str, json_member, one_field, text_json, two_fields, value_result, value_view,
    values_view, JsonValue, JsonView, StateMap,
};
use vstd::prelude::*;

verus! {

/// How long a request may take, in seconds.
pub const BRIDGE_CMD_TIMEOUT_SECS: u64 = 10;

/// How long the subscription handshake may take, in seconds.
pub const SUBSCRIBE_TIMEOUT_SECS: u64 = 15;

/// What a bridge tells of one capability.
#[derive(Debug)]
pub struct CapabilityInfo {
    pub name: String,
    pub access: String,
    pub description: Option<String>,
}

pub struct CapabilityInfoView {
    pub name: Seq<char>,
    pub access: Seq<char>,
    pub description: Option<Seq<char>>,
}

impl View for CapabilityInfo {
    type V = CapabilityInfoView;

    open spec fn view(&self) -> CapabilityInfoView {
        CapabilityInfoView {
            name: self.name@,
            access: self.access@,
            description: opt_string(self.description),
        }
    }
}

/// The access that a word in lower case stands for. What is not known to allow
/// writing does not.
pub open spec fn access_of(word: Seq<char>) -> AccessMode {
    if word == "rw"@ || word == "read_write"@ || word == "readwrite"@ {
        AccessMode::ReadWrite
    } else {
        AccessMode::ReadOnly
    }
}

/// The access that a word in lower case stands for.
pub fn access_mode(word: &str) -> (r: AccessMode)
    ensures
        r == access_of(word@),
{
    if str_eq(word, "rw") || str_eq(word, "read_write") || str_eq(word, "readwrite") {
        AccessMode::ReadWrite
    } else {
        AccessMode::ReadOnly
    }
}

/// The capability that a bridge declares. The case of the access does not matter.
pub open spec fn capability_of(info: CapabilityInfoView) -> CapabilityView {
    CapabilityView {
        name: info.name,
        access: access_of(lowercase_text(info.access)),
        description: info.description,
    }
}

/// The capability that a bridge declares.
pub fn capability_from(info: &CapabilityInfo) -> (c: Capability)
    ensures
        c@ == capability_of(info@),
{
    let word = to_lowercase(info.access.as_str());
    Capability {
        name: info.name.clone(),
        access: access_mode(word.as_str()),
        description: clone_opt(&info.description),
    }
}

/// An optional string of JSON: a string, or `null` for none.
pub open spec fn optional_text(v: JsonView) -> Option<Option<Seq<char>>> {
    match v {
        JsonView::Null => Some(None),
        JsonView::Str(s) => Some(Some(s)),
        _ => None,
    }
}

/// What a JSON value tells of one capability: an object with `name`, `access`
/// and perhaps `description`, or an array of these in order.
pub open spec fn info_of(v: JsonView) -> Option<CapabilityInfoView> {
    match v {
        JsonView::Object(map) => match (
            json_as_str(json_member(v, "name"@)),
            json_as_str(json_member(v, "access"@)),
            optional_text(json_member(v, "description"@)),
        ) {
            (Some(name), Some(access), Some(description)) => Some(
                CapabilityInfoView { name, access, description },
            ),
            _ => None,
        },
        JsonView::Array(items) => if items.len() == 2 || items.len() == 3 {
            match (
                json_as_str(items[0]),
                json_as_str(items[1]),
                if items.len() == 3 {
                    optional_text(items[2])
                } else {
                    Some(None)
                },
            ) {
                (Some(name), Some(access), Some(description)) => Some(
                    CapabilityInfoView { name, access, description },
                ),
                _ => None,
            }
        } else {
            None
        },
        _ => None,
    }
}

fn read_optional_text(v: &JsonValue) -> (r: Option<Option<String>>)
    ensures
        (match r {
            Some(s) => Some(opt_string(s)),
            None => None,
        }) == optional_text(v@),
{
    broadcast use value_view;

    match v {
        JsonValue::Null => Some(None),
        JsonValue::String(s) => Some(Some(s.clone())),
        _ => None,
    }
}

fn assemble(name: &JsonValue, access: &JsonValue, description: &JsonValue) -> (r: Option<
    CapabilityInfo,
>)
    ensures
        (match r {
            Some(info) => Some(info@),
            None => None,
        }) == (match (json_as_str(name@), json_as_str(access@), optional_text(description@)) {
            (Some(name), Some(access), Some(description)) => Some(
                CapabilityInfoView { name, access, description },
            ),
            _ => None,
        }),
{
    match (name.as_str(), access.as_str(), read_optional_text(description)) {
        (Some(name), Some(access), Some(description)) => Some(
            CapabilityInfo { name: name.to_owned(), access: access.to_owned(), description },
        ),
        _ => None,
    }
}

fn read_info(v: &JsonValue) -> (r: Option<CapabilityInfo>)
    ensures
        (match r {
            Some(info) => Some(info@),
            None => None,
        }) == info_of(v@),
{
    broadcast use value_view;

    match v {
        JsonValue::Object(_) => assemble(
            &v.member("name"),
            &v.member("access"),
            &v.member("description"),
        ),
        JsonValue::Array(items) => {
            if items.len() == 2 {
                assemble(&items[0], &items[1], &JsonValue::Null)
            } else if items.len() == 3 {
                assemble(&items[0], &items[1], &items[2])
            } else {
                None
            }
        },
        _ => None,
    }
}

/// The capabilities that a list of JSON values declares, if each is well formed.
pub open spec fn capabilities_of(items: Seq<JsonView>) -> Option<Seq<CapabilityView>>
    decreases items.len(),
{
    if items.len() == 0 {
        Some(Seq::empty())
    } else {
        match (capabilities_of(items.drop_last()), info_of(items.last())) {
            (Some(caps), Some(info)) => Some(caps.push(capability_of(info))),
            _ => None,
        }
    }
}

/// The manifest that the answer to a "caps" request declares.
pub open spec fn manifest_of(result: JsonView) -> Result<Seq<CapabilityView>, Seq<char>> {
    match result {
        JsonView::Array(items) => match capabilities_of(items) {
            Some(caps) => Ok(caps),
            None => Err("Invalid capabilities response"@),
        },
        _ => Err("Invalid capabilities response"@),
    }
}

proof fn lemma_bad_prefix(items: Seq<JsonView>, n: int)
    requires
        0 <= n <= items.len(),
        capabilities_of(items.take(n)) is None,
    ensures
        capabilities_of(items) is None,
    decreases items.len() - n,
{
    if n == items.len() {
        assert(items.take(n) =~= items);
    } else {
        assert(items.take(n + 1).drop_last() =~= items.take(n));
        lemma_bad_prefix(items, n + 1);
    }
}

/// Reads the answer to a "caps" request.
pub fn manifest_from_reply(result: &JsonValue) -> (r: Result<CapabilityManifest, String>)
    ensures
        (match r {
            Ok(m) => Ok(m@),
            Err(e) => Err(e@),
        }) == manifest_of(result@),
{
    let items = match result.as_array() {
        Some(items) => items,
        None => {
            return Err("Invalid capabilities response".to_owned());
        },
    };
    let ghost all = values_view(items@);
    let mut manifest = CapabilityManifest::new();
    for i in 0..items.len()
        invariant
            result@ == JsonView::Array(all),
            all == values_view(items@),
            capabilities_of(all.take(i as int)) == Some(manifest@),
    {
        assert(all.take(i + 1).drop_last() =~= all.take(i as int));
        assert(all.take(i + 1).last() == items@[i as int]@);
        match read_info(&items[i]) {
            Some(info) => {
                manifest = manifest.add(capability_from(&info));
            },
            None => {
                proof {
                    lemma_bad_prefix(all, i + 1);
                }
                return Err("Invalid capabilities response".to_owned());
            },
        }
    }
    assert(all.take(all.len() as int) =~= all);
    Ok(manifest)
}

/// What a response gives the one who sent the request with that number.
pub open spec fn response_value(id: u64, r: crate::protocol::ResponseView) -> Result<
    JsonView,
    Seq<char>,
> {
    if r.id != id {
        Err(
            "Response ID mismatch: expected "@ + decimal(id as nat) + ", got "@ + decimal(
                r.id as nat,
            ),
        )
    } else {
        match (r.error, r.result) {
            (Some(e), _) => Err("Bridge error: "@ + e),
            (None, Some(v)) => Ok(v),
            (None, None) => Ok(JsonView::Null),
        }
    }
}

/// Takes the value out of the response to the request with that number.
pub fn check_response(id: u64, response: Response) -> (r: Result<JsonValue, String>)
    ensures
        value_result(r) == response_value(id, response@),
{
    broadcast use value_view;

    if response.id != id {
        let mut e = joined("Response ID mismatch: expected ", u64_to_text(id).as_str());
        e = joined(e.as_str(), ", got ");
        return Err(joined(e.as_str(), u64_to_text(response.id).as_str()));
    }
    match response.error {
        Some(e) => Err(joined("Bridge error: ", e.as_str())),
        None => match response.result {
            Some(v) => Ok(v),
            None => Ok(JsonValue::Null),
        },
    }
}

/// Whether a bridge accepted a subscription.
pub fn check_subscription(response: &Response) -> (r: Result<(), String>)
    ensures
        unit_result(r) == (match response@.error {
            Some(e) => Err("Bridge rejected subscription: "@ + e),
            None => Ok(()),
        }),
{
    match &response.error {
        Some(e) => Err(joined("Bridge rejected subscription: ", e.as_str())),
        None => Ok(()),
    }
}

/// The state that a JSON value stands for: its members, if it is an object.
pub open spec fn state_of(v: JsonView) -> Map<Seq<char>, JsonView> {
    match v {
        JsonView::Object(map) => map,
        _ => Map::empty(),
    }
}

pub open spec fn opt_state_of(v: Option<JsonView>) -> Option<Map<Seq<char>, JsonView>> {
    match v {
        Some(v) => Some(state_of(v)),
        None => None,
    }
}

fn state_from(v: JsonValue) -> (m: StateMap)
    ensures
        m@ == state_of(v@),
{
    broadcast use value_view;

    match v {
        JsonValue::Object(map) => map,
        _ => StateMap::new(),
    }
}

/// The event that a bridge pushed.
pub fn raw_event(event: Event) -> (r: RawEvent)
    ensures
        r@ == (EventView {
            name: event@.event,
            prev: opt_state_of(event@.prev),
            curr: opt_state_of(event@.curr),
        }),
{
    let mut raw = RawEvent::new(event.event.as_str());
    match event.prev {
        Some(prev) => {
            raw = raw.with_prev_state(state_from(prev));
        },
        None => {},
    }
    match event.curr {
        Some(curr) => {
            raw = raw.with_curr_state(state_from(curr));
        },
        None => {},
    }
    raw
}

/// The message on a line of the event socket, if there is one.
pub fn event_message(line: &str) -> (r: Option<&str>)
    ensures
        crate::value::opt_text(r) == (if trimmed(line@).len() == 0 {
            None
        } else {
            Some(trimmed(line@))
        }),
{
    let text = trim(line);
    if text.is_empty() {
        None
    } else {
        Some(text)
    }
}

pub struct SocketView {
    pub cmd_socket: Seq<char>,
    pub event_socket: Seq<char>,
    pub next_id: int,
    pub caps: Option<Seq<CapabilityView>>,
}

/// The state of the socket adapter: where the bridge listens, the number of the
/// next request, and what the bridge supports once that is known.
#[derive(Debug)]
pub struct SocketAdapter {
    cmd_socket: String,
    event_socket: String,
    next_id: u64,
    cached_caps: Option<CapabilityManifest>,
}

pub open spec fn opt_manifest(m: Option<CapabilityManifest>) -> Option<Seq<CapabilityView>> {
    match m {
        Some(m) => Some(m@),
        None => None,
    }
}

impl View for SocketAdapter {
    type V = SocketView;

    closed spec fn view(&self) -> SocketView {
        SocketView {
            cmd_socket: self.cmd_socket@,
            event_socket: self.event_socket@,
            next_id: self.next_id as int,
            caps: opt_manifest(self.cached_caps),
        }
    }
}

/// The adapter after one more request was numbered.
pub open spec fn numbered(s: SocketView) -> SocketView {
    SocketView { next_id: s.next_id + 1, ..s }
}

impl SocketAdapter {
    /// An adapter for a bridge that listens at these two sockets.
    pub fn new(cmd_socket: &str, event_socket: &str) -> (s: SocketAdapter)
        ensures
            s@ == (SocketView {
                cmd_socket: cmd_socket@,
                event_socket: event_socket@,
                next_id: 1,
                caps: None,
            }),
    {
        SocketAdapter {
            cmd_socket: cmd_socket.to_owned(),
            event_socket: event_socket.to_owned(),
            next_id: 1,
            cached_caps: None,
        }
    }

    /// An adapter for a bridge whose sockets follow from a base path.
    pub fn from_base_path(base: &str) -> (s: SocketAdapter)
        ensures
            s@ == (SocketView {
                cmd_socket: derived_sockets(base@).0,
                event_socket: derived_sockets(base@).1,
                next_id: 1,
                caps: None,
            }),
    {
        SocketAdapter::new(joined(base, ".sock").as_str(), joined(base, "-events.sock").as_str())
    }

    /// The name of the adapter.
    pub fn name(&self) -> (r: &'static str)
        ensures
            r@ == "socket"@,
    {
        "socket"
    }

    /// The socket for requests.
    pub fn cmd_socket(&self) -> (r: &str)
        ensures
            r@ == self@.cmd_socket,
    {
        self.cmd_socket.as_str()
    }

    /// The socket for events.
    pub fn event_socket(&self) -> (r: &str)
        ensures
            r@ == self@.event_socket,
    {
        self.event_socket.as_str()
    }

    /// What the bridge supports, nothing as long as that is not known.
    pub fn manifest(&self) -> (m: CapabilityManifest)
        ensures
            m@ == (match self@.caps {
                Some(caps) => caps,
                None => Seq::empty(),
            }),
    {
        match &self.cached_caps {
            Some(m) => m.clone(),
            None => CapabilityManifest::new(),
        }
    }

    /// Whether the bridge has still to be asked what it supports.
    pub fn needs_caps(&self) -> (r: bool)
        ensures
            r == (self@.caps is None),
    {
        self.cached_caps.is_none()
    }

    /// Whether one more request can be numbered.
    pub fn can_request(&self) -> (r: bool)
        ensures
            r == (self@.next_id < u64::MAX),
    {
        self.next_id < u64::MAX
    }

    /// The number of the next request.
    fn next_id(&mut self) -> (id: u64)
        requires
            old(self)@.next_id < u64::MAX,
        ensures
            id == old(self)@.next_id,
            final(self)@ == numbered(old(self)@),
    {
        let id: u64 = self.next_id;
        self.next_id = id + 1;
        id
    }

    /// The request that asks what the bridge supports.
    pub fn caps_request(&mut self) -> (r: Request)
        requires
            old(self)@.next_id < u64::MAX,
        ensures
            r@ == (RequestView {
                id: old(self)@.next_id as u64,
                method: "caps"@,
                params: JsonView::Null,
            }),
            final(self)@ == numbered(old(self)@),
    {
        let id: u64 = self.next_id();
        Request::caps(id)
    }

    /// Takes what the bridge answered to the question what it supports.
    pub fn take_caps(&mut self, result: &JsonValue) -> (r: Result<(), String>)
        ensures
            unit_result(r) == (match manifest_of(result@) {
                Ok(_) => Ok(()),
                Err(e) => Err(e),
            }),
            final(self)@ == (match manifest_of(result@) {
                Ok(caps) => SocketView { caps: Some(caps), ..old(self)@ },
                Err(_) => old(self)@,
            }),
    {
        match manifest_from_reply(result) {
            Ok(m) => {
                self.cached_caps = Some(m);
                Ok(())
            },
            Err(e) => Err(e),
        }
    }

    /// The request for events, which opens the event socket. It is the only one
    /// there and has the number 0.
    pub fn subscribe_request(&self, events: &NameSet) -> (r: Request)
        ensures
            r@ == (RequestView {
                id: 0,
                method: "subscribe"@,
                params: JsonView::Object(one_field("events"@, names_json(events.listed()))),
            }),
    {
        Request::subscribe(0, events.to_vec())
    }

    /// The request that reads a key.
    pub fn get_request(&mut self, key: &str) -> (r: Request)
        requires
            old(self)@.next_id < u64::MAX,
        ensures
            r@ == (RequestView {
                id: old(self)@.next_id as u64,
                method: "get"@,
                params: JsonView::Object(one_field("key"@, text_json(key@))),
            }),
            final(self)@ == numbered(old(self)@),
    {
        let id: u64 = self.next_id();
        Request::get(id, key)
    }

    /// The request that sets a key.
    pub fn set_request(&mut self, key: &str, value: JsonValue) -> (r: Request)
        requires
            old(self)@.next_id < u64::MAX,
        ensures
            r@ == (RequestView {
                id: old(self)@.next_id as u64,
                method: "set"@,
                params: JsonView::Object(
                    two_fields("key"@, text_json(key@), "value"@, value@),
                ),
            }),
            final(self)@ == numbered(old(self)@),
    {
        let id: u64 = self.next_id();
        Request::set(id, key, value)
    }
}

/// The error of a bridge that took too long over a request.
pub fn bridge_timed_out() -> (r: String)
    ensures
        r@ == "Bridge did not respond within "@ + decimal(BRIDGE_CMD_TIMEOUT_SECS as nat) + "s"@,
{
    joined3("Bridge did not respond within ", u64_to_text(BRIDGE_CMD_TIMEOUT_SECS).as_str(), "s")
}

/// The error of a bridge that took too long over the subscription.
pub fn subscription_timed_out() -> (r: String)
    ensures
        r@ == "Subscribe handshake timed out after "@ + decimal(SUBSCRIBE_TIMEOUT_SECS as nat)
            + "s"@,
{
    let secs = u64_to_text(SUBSCRIBE_TIMEOUT_SECS);
    joined3("Subscribe handshake timed out after ", secs.as_str(), "s")
}

/// A response is taken only by the request whose number it carries: of two
/// requests with different numbers at most one accepts it.
pub proof fn responses_match_one_request(
    a: u64,
    b: u64,
    response: crate::protocol::ResponseView,
)
    requires
        a != b,
        response_value(a, response) is Ok,
    ensures
        response_value(b, response) is Err,
{
}

/// A bridge that does not say "rw", "read_write" or "readwrite" grants no write
/// access.
pub proof fn unknown_access_is_read_only(word: Seq<char>)
    requires
        word != "rw"@,
        word != "read_write"@,
        word != "readwrite"@,
    ensures
        access_of(word) == AccessMode::ReadOnly,
{
}

/// A bridge grants write access with one of three words, in whatever case it writes them.
pub proof fn access_is_granted(info: CapabilityInfoView)
    ensures
        access_of("rw"@) == AccessMode::ReadWrite,
        access_of("read_write"@) == AccessMode::ReadWrite,
        access_of("readwrite"@) == AccessMode::ReadWrite,
        capability_of(info).name == info.name,
        capability_of(info).description == info.description,
        capability_of(info).access == AccessMode::ReadWrite <==> (lowercase_text(info.access)
            == "rw"@ || lowercase_text(info.access) == "read_write"@ || lowercase_text(info.access)
            == "readwrite"@),
{
}

/// A capability is told as an object, or as a list of its name, its access and perhaps
/// what it is. Name and access must be there, and all are texts.
pub proof fn capabilities_are_told(
    map: Map<Seq<char>, JsonView>,
    name: Seq<char>,
    access: Seq<char>,
    text: Seq<char>,
    other: JsonView,
    items: Seq<JsonView>,
)
    requires
        other !is Str,
    ensures
        info_of(
            JsonView::Object(
                map.insert("name"@, JsonView::Str(name)).insert("access"@,
                    JsonView::Str(access)).insert(
                    "description"@,
                    JsonView::Str(text),
                ),
            ),
        ) == Some(CapabilityInfoView { name, access, description: Some(text) }),
        info_of(
            JsonView::Object(
                map.remove("description"@).insert("name"@, JsonView::Str(name)).insert(
                    "access"@,
                    JsonView::Str(access),
                ),
            ),
        ) == Some(CapabilityInfoView { name, access, description: None }),
        info_of(
            JsonView::Object(
                map.insert("description"@, JsonView::Null).insert(
                    "name"@,
                    JsonView::Str(name),
                ).insert("access"@, JsonView::Str(access)),
            ),
        ) == Some(CapabilityInfoView { name, access, description: None }),
        other !is Null ==> info_of(JsonView::Object(map.insert("description"@, other))) is None,
        info_of(JsonView::Object(map.insert("name"@, other))) is None,
        info_of(JsonView::Object(map.remove("name"@))) is None,
        info_of(JsonView::Object(map.insert("access"@, other))) is None,
        info_of(JsonView::Object(map.remove("access"@))) is None,
        info_of(JsonView::Array(seq![JsonView::Str(name), JsonView::Str(access)])) == Some(
            CapabilityInfoView { name, access, description: None },
        ),
        info_of(
            JsonView::Array(seq![JsonView::Str(name), JsonView::Str(access), JsonView::Str(text)]),
        ) == Some(CapabilityInfoView { name, access, description: Some(text) }),
        info_of(JsonView::Array(seq![JsonView::Str(name), JsonView::Str(access), JsonView::Null]))
            == Some(CapabilityInfoView { name, access, description: None }),
        items.len() < 2 || items.len() > 3 ==> info_of(JsonView::Array(items)) is None,
        items.len() > 0 && items[0] !is Str ==> info_of(JsonView::Array(items)) is None,
        items.len() > 1 && items[1] !is Str ==> info_of(JsonView::Array(items)) is None,
        items.len() > 2 && items[2] !is Str && items[2] !is Null ==> info_of(
            JsonView::Array(items),
        ) is None,
        other !is Object && other !is Array ==> info_of(other) is None,
{
    reveal_strlit("name");
    reveal_strlit("access");
    reveal_strlit("description");
    assert("name"@.len() == 4);
    assert("access"@.len() == 6);
    assert("description"@.len() == 11);
}

/// A manifest is told as a list of capabilities, in order. One that is not well formed
/// spoils the list.
pub proof fn manifests_are_told(items: Seq<JsonView>, item: JsonView, other: JsonView)
    requires
        other !is Array,
    ensures
        manifest_of(JsonView::Array(Seq::empty())) == Ok::<Seq<CapabilityView>, Seq<char>>(
            Seq::empty(),
        ),
        manifest_of(JsonView::Array(items)) matches Ok(caps) ==> info_of(item) matches Some(info)
            ==> manifest_of(JsonView::Array(items.push(item))) == Ok::<
            Seq<CapabilityView>,
            Seq<char>,
        >(caps.push(capability_of(info))),
        manifest_of(JsonView::Array(items)) is Err || info_of(item) is None ==> manifest_of(
            JsonView::Array(items.push(item)),
        ) == Err::<Seq<CapabilityView>, Seq<char>>("Invalid capabilities response"@),
        manifest_of(other) == Err::<Seq<CapabilityView>, Seq<char>>(
            "Invalid capabilities response"@,
        ),
{
    assert(items.push(item).drop_last() =~= items);
    assert(items.push(item).last() == item);
}

/// A response counts only if it carries the number of the request. An error stands before
/// a result, and a response with neither comes to nothing.
pub proof fn responses_are_taken(
    id: u64,
    other: u64,
    v: JsonView,
    r: Option<JsonView>,
    e: Option<Seq<char>>,
    text: Seq<char>,
)
    requires
        other != id,
    ensures
        response_value(id, crate::protocol::ResponseView { id, result: Some(v),
            error: None }) == Ok::<
            JsonView,
            Seq<char>,
        >(v),
        response_value(id, crate::protocol::ResponseView { id, result: None, error: None }) == Ok::<
            JsonView,
            Seq<char>,
        >(JsonView::Null),
        response_value(id, crate::protocol::ResponseView { id, result: r, error: Some(text) })
            == Err::<JsonView, Seq<char>>("Bridge error: "@ + text),
        response_value(id, crate::protocol::ResponseView { id: other, result: r,
            error: e }) == Err::<
            JsonView,
            Seq<char>,
        >(
            "Response ID mismatch: expected "@ + decimal(id as nat) + ", got "@ + decimal(
                other as nat,
            ),
        ),
{
}

/// The state that a bridge tells is an object, and everything else an empty one. A state
/// that it does not tell is none.
pub proof fn states_are_told(map: Map<Seq<char>, JsonView>, other: JsonView)
    requires
        other !is Object,
    ensures
        opt_state_of(Some(JsonView::Object(map))) == Some(map),
        opt_state_of(Some(other)) == Some(Map::<Seq<char>, JsonView>::empty()),
        opt_state_of(None) is None,
{
}

/// Every request has a number of its own: one after another.
pub proof fn requests_are_numbered(s: SocketView)
    ensures
        numbered(s).next_id == s.next_id + 1,
        numbered(s) == (SocketView { next_id: numbered(s).next_id, ..s }),
{
}

/// A subscription stands unless the bridge says why not.
pub proof fn subscriptions_may_be_rejected(
    response: Response,
    r: Result<(), String>,
)
    requires
        call_ensures(check_subscription, (&response,), r),
    ensures
        r is Ok <==> response@.error is None,
        response@.error matches Some(e) ==> (r matches Err(f) && f@
            == "Bridge rejected subscription: "@ + e),
{
}

/// A line of a bridge is read without the white space around it, and a blank one not at all.
pub proof fn blank_lines_are_passed_over(line: &str, r: Option<&str>)
    requires
        call_ensures(event_message, (line,), r),
    ensures
        r is None <==> trimmed(line@).len() == 0,
        r matches Some(text) ==> text@ == trimmed(line@),
{
}

/// A bridge has ten seconds for a command, and fifteen to take the subscription.
pub proof fn bridges_do_not_take_forever(late: String, silent: String)
    requires
        call_ensures(bridge_timed_out, (), late),
        call_ensures(subscription_timed_out, (), silent),
    ensures
        late@ == "Bridge did not respond within "@ + decimal(10) + "s"@,
        silent@ == "Subscribe handshake timed out after "@ + decimal(15) + "s"@,
{
}

} // verus!
