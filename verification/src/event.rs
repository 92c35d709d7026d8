//! Events that backends emit.

use crate::value::{JsonValue, JsonView, NumberView, StateMap};
use vstd::prelude::*;

verus! {

/// The model of a state: what is known of it, or `None` where the event has no
/// such side.
pub open spec fn opt_state(s: Option<StateMap>) -> Option<Map<Seq<char>, JsonView>> {
    match s {
        Some(m) => Some(m@),
        None => None,
    }
}

/// The model of an event. The time at which it was received is no part of it.
pub struct EventView {
    pub name: Seq<char>,
    pub prev: Option<Map<Seq<char>, JsonView>>,
    pub curr: Option<Map<Seq<char>, JsonView>>,
}

/// A state transition that a backend reports. An event may lack either side: a
/// window that opens has no previous state, one that closes no current state.
#[derive(Debug)]
pub struct RawEvent {
    /// What happened, such as "focus_change".
    pub name: String,
    /// The state before the event.
    pub prev: Option<StateMap>,
    /// The state after the event.
    pub curr: Option<StateMap>,
    /// When the event was received, in milliseconds since the Unix epoch.
    pub timestamp: u64,
}

impl View for RawEvent {
    type V = EventView;

    open spec fn view(&self) -> EventView {
        EventView { name: self.name@, prev: opt_state(self.prev), curr: opt_state(self.curr) }
    }
}

/// A copy of an optional state.
pub fn clone_state(s: &Option<StateMap>) -> (r: Option<StateMap>)
    ensures
        opt_state(r) == opt_state(*s),
{
    match s {
        Some(m) => Some(m.clone()),
        None => None,
    }
}

impl Clone for RawEvent {
    fn clone(&self) -> (r: RawEvent)
        ensures
            r@ == self@,
            r.timestamp == self.timestamp,
    {
        RawEvent {
            name: self.name.clone(),
            prev: clone_state(&self.prev),
            curr: clone_state(&self.curr),
            timestamp: self.timestamp,
        }
    }
}

/// Calls `std::time::SystemTime::now` and measures the distance to
/// `std::time::UNIX_EPOCH` with `duration_since`. `None` stands for a clock that
/// is set to a time before the epoch. Nothing is claimed of the result: it
/// depends on the clock.
#[verifier::external_body]
fn unix_millis() -> (r: Option<u64>) {
    std::time::SystemTime::now().duration_since(std::time::UNIX_EPOCH).ok().map(
        |d| d.as_millis() as u64,
    )
}

/// The value under a key of a state, if the state is there and has the key.
pub open spec fn state_get(s: Option<Map<Seq<char>, JsonView>>, key: Seq<char>) -> Option<JsonView> {
    match s {
        Some(m) => if m.dom().contains(key) {
            Some(m[key])
        } else {
            None
        },
        None => None,
    }
}

/// The state with one more entry. A missing state counts as an empty one.
pub open spec fn state_put(
    s: Option<Map<Seq<char>, JsonView>>,
    key: Seq<char>,
    value: JsonView,
) -> Option<Map<Seq<char>, JsonView>> {
    match s {
        Some(m) => Some(m.insert(key, value)),
        None => Some(Map::<Seq<char>, JsonView>::empty().insert(key, value)),
    }
}

/// The model of an optional value.
pub open spec fn opt_value(v: Option<&JsonValue>) -> Option<JsonView> {
    match v {
        Some(v) => Some(v@),
        None => None,
    }
}

fn put(state: Option<StateMap>, key: &str, value: JsonValue) -> (r: Option<StateMap>)
    ensures
        opt_state(r) == state_put(opt_state(state), key@, value@),
{
    let mut m = match state {
        Some(m) => m,
        None => StateMap::new(),
    };
    m.insert(key, value);
    Some(m)
}

fn lookup<'a>(state: &'a Option<StateMap>, key: &str) -> (r: Option<&'a JsonValue>)
    ensures
        opt_value(r) == state_get(opt_state(*state), key@),
{
    match state {
        Some(m) => m.get(key),
        None => None,
    }
}

impl RawEvent {
    /// An event that is received now, with neither state.
    pub fn new(name: &str) -> (e: RawEvent)
        ensures
            e@ == (EventView { name: name@, prev: None, curr: None }),
    {
        let timestamp: u64 = match unix_millis() {
            Some(ms) => ms,
            None => 0,
        };
        RawEvent::at(name, timestamp)
    }

    /// An event that was received at a given time, with neither state.
    pub fn at(name: &str, timestamp: u64) -> (e: RawEvent)
        ensures
            e@ == (EventView { name: name@, prev: None, curr: None }),
            e.timestamp == timestamp,
    {
        RawEvent { name: name.to_owned(), prev: None, curr: None, timestamp }
    }

    /// Adds an entry to the previous state.
    pub fn with_prev(self, key: &str, value: JsonValue) -> (e: RawEvent)
        ensures
            e@ == (EventView { prev: state_put(self@.prev, key@, value@), ..self@ }),
            e.timestamp == self.timestamp,
    {
        let prev = put(self.prev, key, value);
        RawEvent { name: self.name, prev, curr: self.curr, timestamp: self.timestamp }
    }

    /// Adds an entry to the current state.
    pub fn with_curr(self, key: &str, value: JsonValue) -> (e: RawEvent)
        ensures
            e@ == (EventView { curr: state_put(self@.curr, key@, value@), ..self@ }),
            e.timestamp == self.timestamp,
    {
        let curr = put(self.curr, key, value);
        RawEvent { name: self.name, prev: self.prev, curr, timestamp: self.timestamp }
    }

    /// Sets the whole previous state.
    pub fn with_prev_state(self, state: StateMap) -> (e: RawEvent)
        ensures
            e@ == (EventView { prev: Some(state@), ..self@ }),
            e.timestamp == self.timestamp,
    {
        RawEvent { name: self.name, prev: Some(state), curr: self.curr, timestamp: self.timestamp }
    }

    /// Sets the whole current state.
    pub fn with_curr_state(self, state: StateMap) -> (e: RawEvent)
        ensures
            e@ == (EventView { curr: Some(state@), ..self@ }),
            e.timestamp == self.timestamp,
    {
        RawEvent { name: self.name, prev: self.prev, curr: Some(state), timestamp: self.timestamp }
    }

    /// A value of the previous state.
    pub fn get_prev(&self, key: &str) -> (r: Option<&JsonValue>)
        ensures
            opt_value(r) == state_get(self@.prev, key@),
    {
        lookup(&self.prev, key)
    }

    /// A value of the current state.
    pub fn get_curr(&self, key: &str) -> (r: Option<&JsonValue>)
        ensures
            opt_value(r) == state_get(self@.curr, key@),
    {
        lookup(&self.curr, key)
    }

    /// A string of the previous state.
    pub fn get_prev_str(&self, key: &str) -> (r: Option<&str>)
        ensures
            crate::value::opt_text(r) == state_str(self@.prev, key@),
    {
        match lookup(&self.prev, key) {
            Some(v) => v.as_str(),
            None => None,
        }
    }

    /// A string of the current state.
    pub fn get_curr_str(&self, key: &str) -> (r: Option<&str>)
        ensures
            crate::value::opt_text(r) == state_str(self@.curr, key@),
    {
        match lookup(&self.curr, key) {
            Some(v) => v.as_str(),
            None => None,
        }
    }

    /// An integer of the previous state.
    pub fn get_prev_i64(&self, key: &str) -> (r: Option<i64>)
        ensures
            r == state_i64(self@.prev, key@),
    {
        match lookup(&self.prev, key) {
            Some(v) => v.as_i64(),
            None => None,
        }
    }

    /// An integer of the current state.
    pub fn get_curr_i64(&self, key: &str) -> (r: Option<i64>)
        ensures
            r == state_i64(self@.curr, key@),
    {
        match lookup(&self.curr, key) {
            Some(v) => v.as_i64(),
            None => None,
        }
    }
}

/// The string under a key of a state.
pub open spec fn state_str(s: Option<Map<Seq<char>, JsonView>>, key: Seq<char>) -> Option<Seq<char>> {
    match state_get(s, key) {
        Some(v) => crate::value::json_as_str(v),
        None => None,
    }
}

/// The integer under a key of a state.
pub open spec fn state_i64(s: Option<Map<Seq<char>, JsonView>>, key: Seq<char>) -> Option<i64> {
    match state_get(s, key) {
        Some(v) => crate::value::json_as_i64(v),
        None => None,
    }
}

/// A value that was put under a key is read back from it, and every other key
/// keeps what it had.
pub proof fn put_is_read_back(
    s: Option<Map<Seq<char>, JsonView>>,
    key: Seq<char>,
    value: JsonView,
    other: Seq<char>,
)
    ensures
        state_get(state_put(s, key, value), key) == Some(value),
        other != key ==> state_get(state_put(s, key, value), other) == state_get(s, other),
{
}

/// A field of a state is read as a text or an integer exactly if it is there and is one.
pub proof fn fields_are_read(
    s: Map<Seq<char>, JsonView>,
    key: Seq<char>,
    text: Seq<char>,
    i: i64,
    v: JsonView,
)
    ensures
        state_get(Some(s.insert(key, v)), key) == Some(v),
        state_get(Some(s.remove(key)), key) is None,
        state_get(None, key) is None,
        state_str(Some(s.insert(key, JsonView::Str(text))), key) == Some(text),
        v !is Str ==> state_str(Some(s.insert(key, v)), key) is None,
        state_str(Some(s.remove(key)), key) is None,
        state_str(None, key) is None,
        state_i64(Some(s.insert(key, JsonView::Number(NumberView::Int(i as int)))), key) == Some(i),
        v !is Number ==> state_i64(Some(s.insert(key, v)), key) is None,
        state_i64(Some(s.remove(key)), key) is None,
        state_i64(None, key) is None,
        state_put(None, key, v) == Some(map![key => v]),
{
    assert(state_put(None, key, v)->0 =~= map![key => v]);
}

} // verus!
