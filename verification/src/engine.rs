//! Scripts: the values that pass between them and the backend, and what they may
//! write.

use crate::capability::{check_writable, write_refusal, CapabilityManifest};
use crate::event::{RawEvent, EventView};
use crate::keyed::{lemma_named_map, named_map, names_differ};
use crate::text::joined;
use crate::value::{
    distinct_names, entries_map, finite_bits, lemma_entries_map, value_view, values_view, JsonValue, JsonView,
    Number, NumberView, StateMap,
};
use rhai::Map as ScriptMap;
use vstd::prelude::*;

verus! {

/// `rhai::Dynamic`, as an opaque type.
#[verifier::external_type_specification]
#[verifier::external_body]
pub struct ExDynamic(rhai::Dynamic);

/// `rhai::Engine`, as an opaque type.
#[verifier::external_type_specification]
#[verifier::external_body]
pub struct ExEngine(rhai::Engine);

/// What a script value is. `Other` stands for what JSON has no word for, such as
/// characters, functions and times, and `Shared` for a value behind a lock, which
/// others may change at any time.
pub enum ScriptView {
    Unit,
    Bool(bool),
    Int(i64),
    Float(u64),
    Str(Seq<char>),
    Array(Seq<ScriptView>),
    Table(Map<Seq<char>, ScriptView>),
    Other,
    Shared,
}

/// What a `rhai::Dynamic` holds itself. What a shared value holds behind its lock
/// is not part of it.
pub uninterp spec fn script_model(d: rhai::Dynamic) -> ScriptView;

/// The bit pattern of the float that is nearest to an integer.
pub uninterp spec fn nearest_float(u: u64) -> u64;

/// The limits that an engine was given.
pub uninterp spec fn engine_limits(e: rhai::Engine) -> EngineLimits;

/// One level of a script value, with the outside values below it.
enum ScriptNode {
    Unit,
    Bool(bool),
    Int(i64),
    Float(u64),
    Text(String),
    List(Vec<rhai::Dynamic>),
    Table(Vec<(String, rhai::Dynamic)>),
    Other,
    Shared(rhai::Dynamic),
}

spec fn node_items(items: Seq<rhai::Dynamic>) -> Seq<ScriptView> {
    Seq::new(items.len(), |i: int| script_model(items[i]))
}

spec fn node_entries(entries: Seq<(String, rhai::Dynamic)>) -> Seq<(Seq<char>, ScriptView)> {
    Seq::new(entries.len(), |i: int| (entries[i].0@, script_model(entries[i].1)))
}

spec fn node_model(n: ScriptNode) -> ScriptView {
    match n {
        ScriptNode::Unit => ScriptView::Unit,
        ScriptNode::Bool(b) => ScriptView::Bool(b),
        ScriptNode::Int(i) => ScriptView::Int(i),
        ScriptNode::Float(bits) => ScriptView::Float(bits),
        ScriptNode::Text(s) => ScriptView::Str(s@),
        ScriptNode::List(items) => ScriptView::Array(node_items(items@)),
        ScriptNode::Table(entries) => ScriptView::Table(named_map(node_entries(entries@))),
        ScriptNode::Other => ScriptView::Other,
        ScriptNode::Shared(_) => ScriptView::Shared,
    }
}

/// Takes a `rhai::Dynamic` apart: a shared one, as `is_shared` tells, is left as
/// it is. The others are told apart with `as_bool`, `as_int`, `as_float`,
/// `is_unit`, `is_string`, `is_array` and `is_map`, and `cast` hands out what
/// those hold, items and entries as they are. The entries of a map have distinct
/// names.
#[verifier::external_body]
fn dynamic_open(d: rhai::Dynamic) -> (n: ScriptNode)
    ensures
        node_model(n) == script_model(d),
        n matches ScriptNode::Table(entries) ==> names_differ(node_entries(entries@)),
{
    if d.is_shared() {
        return ScriptNode::Shared(d);
    }
    match (d.as_bool(), d.as_int(), d.as_float()) {
        (Ok(b), ..) => ScriptNode::Bool(b),
        (_, Ok(i), _) => ScriptNode::Int(i),
        (.., Ok(f)) => ScriptNode::Float(f.to_bits()),
        _ if d.is_unit() => ScriptNode::Unit,
        _ if d.is_string() => ScriptNode::Text(d.cast()),
        _ if d.is_array() => ScriptNode::List(d.cast()),
        _ if d.is_map() => ScriptNode::Table(
            d.cast::<ScriptMap>().into_iter().map(|(k, v)| (k.into(), v)).collect()),
        _ => ScriptNode::Other,
    }
}

/// Copies what a shared `rhai::Dynamic` holds, under the lock that
/// `rhai::Dynamic::read_lock` takes. `None` stands for a lock that could not be
/// taken. Nothing is claimed of the result: others may change the value, and hold
/// the lock, at any time.
#[verifier::external_body]
fn dynamic_held(d: &rhai::Dynamic) -> (held: Option<rhai::Dynamic>) {
    d.read_lock::<rhai::Dynamic>().map(|held| held.clone())
}

/// Builds a `rhai::Dynamic` with `rhai::Dynamic::from`, and the unit value with
/// `rhai::Dynamic::UNIT`. Of two entries of one name the later counts, as it does
/// when entries are collected into a `rhai::Map`. Values without a JSON form and
/// shared values are not built.
#[verifier::external_body]
fn dynamic_build(n: ScriptNode) -> (d: rhai::Dynamic)
    requires
        !(n is Other),
        !(n is Shared),
    ensures
        script_model(d) == node_model(n),
{
    match n {
        ScriptNode::Unit | ScriptNode::Other | ScriptNode::Shared(_) => rhai::Dynamic::UNIT,
        ScriptNode::Bool(b) => rhai::Dynamic::from(b),
        ScriptNode::Int(i) => rhai::Dynamic::from(i),
        ScriptNode::Float(bits) => rhai::Dynamic::from(rhai::FLOAT::from_bits(bits)),
        ScriptNode::Text(s) => rhai::Dynamic::from(s),
        ScriptNode::List(items) => rhai::Dynamic::from(items),
        ScriptNode::Table(entries) => rhai::Dynamic::from(
            entries.into_iter().map(|(k, v)| (k.into(), v)).collect::<ScriptMap>(),
        ),
    }
}

/// Converts an integer to a float with `serde_json::Number::as_f64`. The float
/// depends on the integer alone.
#[verifier::external_body]
fn float_from_u64(u: u64) -> (bits: u64)
    ensures
        bits == nearest_float(u),
{
    serde_json::Number::from(u).as_f64().map_or(0, |f| f.to_bits())
}

/// What a script may use up.
#[derive(Debug, Clone, Copy, PartialEq, Eq, Structural)]
pub struct EngineLimits {
    /// How deep expressions may be nested, outside functions and in them.
    pub expr_depth: usize,
    pub string_size: usize,
    pub array_size: usize,
    pub map_size: usize,
    pub operations: u64,
}

/// The limits under which scripts run.
pub open spec fn script_limits() -> EngineLimits {
    EngineLimits {
        expr_depth: 64,
        string_size: 10_000,
        array_size: 1_000,
        map_size: 500,
        operations: 100_000,
    }
}

/// Makes an engine with `rhai::Engine::new` and gives it its limits with
/// `set_max_expr_depths`, `set_max_string_size`, `set_max_array_size`,
/// `set_max_map_size` and `set_max_operations`. A limit of zero would stand for
/// none.
#[verifier::external_body]
fn limited_engine(limits: EngineLimits) -> (e: rhai::Engine)
    ensures
        engine_limits(e) == limits,
{
    let mut engine = rhai::Engine::new();
    engine.set_max_expr_depths(limits.expr_depth, limits.expr_depth);
    engine.set_max_string_size(limits.string_size);
    engine.set_max_array_size(limits.array_size);
    engine.set_max_map_size(limits.map_size);
    engine.set_max_operations(limits.operations);
    engine
}

/// An engine for one run of a script.
pub fn create_engine() -> (e: rhai::Engine)
    ensures
        engine_limits(e) == script_limits(),
{
    limited_engine(
        EngineLimits {
            expr_depth: 64,
            string_size: 10_000,
            array_size: 1_000,
            map_size: 500,
            operations: 100_000,
        },
    )
}

/// The script value for a JSON value. An integer that a script cannot hold
/// becomes a float.
pub open spec fn script_of(v: JsonView) -> ScriptView
    decreases v,
{
    match v {
        JsonView::Null => ScriptView::Unit,
        JsonView::Bool(b) => ScriptView::Bool(b),
        JsonView::Number(NumberView::Int(i)) => if i64::MIN <= i <= i64::MAX {
            ScriptView::Int(i as i64)
        } else {
            ScriptView::Float(nearest_float(i as u64))
        },
        JsonView::Number(NumberView::Float(bits)) => ScriptView::Float(bits),
        JsonView::Str(s) => ScriptView::Str(s),
        JsonView::Array(items) => ScriptView::Array(
            Seq::new(
                items.len(),
                |i: int|
                    if 0 <= i < items.len() {
                        script_of(items[i])
                    } else {
                        ScriptView::Unit
                    },
            ),
        ),
        JsonView::Object(map) => ScriptView::Table(
            Map::new(
                |k: Seq<char>| map.dom().contains(k),
                |k: Seq<char>|
                    if map.dom().finite() && map.dom().contains(k) {
                        script_of(map[k])
                    } else {
                        ScriptView::Unit
                    },
            ),
        ),
    }
}

/// The JSON value for a script value of which nothing is shared. What JSON has no
/// word for becomes `null`.
pub open spec fn json_of(v: ScriptView) -> JsonView
    decreases v,
{
    match v {
        ScriptView::Unit => JsonView::Null,
        ScriptView::Bool(b) => JsonView::Bool(b),
        ScriptView::Int(i) => JsonView::Number(NumberView::Int(i as int)),
        ScriptView::Float(bits) => if finite_bits(bits) {
            JsonView::Number(NumberView::Float(bits))
        } else {
            JsonView::Null
        },
        ScriptView::Str(s) => JsonView::Str(s),
        ScriptView::Array(items) => JsonView::Array(
            Seq::new(
                items.len(),
                |i: int|
                    if 0 <= i < items.len() {
                        json_of(items[i])
                    } else {
                        JsonView::Null
                    },
            ),
        ),
        ScriptView::Table(map) => JsonView::Object(
            Map::new(
                |k: Seq<char>| map.dom().contains(k),
                |k: Seq<char>|
                    if map.dom().finite() && map.dom().contains(k) {
                        json_of(map[k])
                    } else {
                        JsonView::Null
                    },
            ),
        ),
        ScriptView::Other => JsonView::Null,
        ScriptView::Shared => JsonView::Null,
    }
}

/// Nothing of a value is shared.
pub open spec fn unshared(v: ScriptView) -> bool
    decreases v,
{
    match v {
        ScriptView::Shared => false,
        ScriptView::Array(items) => forall|i: int|
            0 <= i < items.len() ==> unshared(#[trigger] items[i]),
        ScriptView::Table(map) => map.dom().finite() && forall|k: Seq<char>|
            map.dom().finite() && map.dom().contains(k) ==> unshared(#[trigger] map[k]),
        _ => true,
    }
}

/// Nothing of a value is shared, and JSON has a word for all of it.
pub open spec fn plain(v: ScriptView) -> bool
    decreases v,
{
    match v {
        ScriptView::Shared => false,
        ScriptView::Other => false,
        ScriptView::Array(items) => forall|i: int|
            0 <= i < items.len() ==> plain(#[trigger] items[i]),
        ScriptView::Table(map) => map.dom().finite() && forall|k: Seq<char>|
            map.dom().finite() && map.dom().contains(k) ==> plain(#[trigger] map[k]),
        _ => true,
    }
}

/// A JSON value is the one for a script value, whatever its shared parts held.
pub open spec fn json_fits(v: ScriptView, j: JsonView) -> bool
    decreases v,
{
    match v {
        ScriptView::Shared => true,
        ScriptView::Array(items) => match j {
            JsonView::Array(out) => out.len() == items.len() && forall|i: int|
                0 <= i < items.len() ==> json_fits(items[i], #[trigger] out[i]),
            _ => false,
        },
        ScriptView::Table(map) => match j {
            JsonView::Object(out) => out.dom() == map.dom() && forall|k: Seq<char>|
                map.dom().finite() && map.dom().contains(k) ==> json_fits(
                    map[k],
                    #[trigger] out[k],
                ),
            _ => false,
        },
        _ => j == json_of(v),
    }
}

/// Of a script value of which nothing is shared there is one JSON value.
pub proof fn unshared_values_are_exact(v: ScriptView, j: JsonView)
    requires
        unshared(v),
    ensures
        json_fits(v, j) <==> j == json_of(v),
    decreases v,
{
    match v {
        ScriptView::Array(items) => {
            let want = json_of(v)->Array_0;
            assert forall|i: int| 0 <= i < items.len() implies json_fits(
                items[i],
                #[trigger] want[i],
            ) by {
                assert(unshared(items[i]));
                unshared_values_are_exact(items[i], want[i]);
            }
            if json_fits(v, j) {
                let out = j->Array_0;
                assert forall|i: int| 0 <= i < items.len() implies #[trigger] out[i] == want[i] by {
                    assert(unshared(items[i]));
                    unshared_values_are_exact(items[i], out[i]);
                }
                assert(out =~= want);
            }
        },
        ScriptView::Table(map) => {
            let want = json_of(v)->Object_0;
            assert(want.dom() =~= map.dom());
            assert forall|k: Seq<char>|
                map.dom().finite() && map.dom().contains(k) implies json_fits(
                map[k],
                #[trigger] want[k],
            ) by {
                assert(unshared(map[k]));
                unshared_values_are_exact(map[k], want[k]);
            }
            if json_fits(v, j) {
                let out = j->Object_0;
                assert forall|k: Seq<char>| #[trigger] out.dom().contains(k) implies out[k]
                    == want[k] by {
                    assert(map.dom().contains(k));
                    assert(unshared(map[k]));
                    unshared_values_are_exact(map[k], out[k]);
                }
                assert(out =~= want);
            }
        },
        _ => {},
    }
}

spec fn scripted(listing: Seq<(Seq<char>, JsonView)>) -> Seq<(Seq<char>, ScriptView)> {
    Seq::new(listing.len(), |i: int| (listing[i].0, script_of(listing[i].1)))
}

proof fn lemma_scripted(listing: Seq<(Seq<char>, JsonView)>)
    requires
        distinct_names(listing),
    ensures
        names_differ(scripted(listing)),
        ScriptView::Table(named_map(scripted(listing))) == script_of(
            JsonView::Object(entries_map(listing)),
        ),
{
    let after = scripted(listing);
    let map = entries_map(listing);
    assert forall|i: int, j: int| 0 <= i < j < after.len() implies (#[trigger] after[i]).0 != (
    #[trigger] after[j]).0 by {
        assert(listing[i].0 != listing[j].0);
    }
    lemma_entries_map(listing);
    lemma_named_map(after);
    let want = script_of(JsonView::Object(map))->Table_0;
    assert forall|k: Seq<char>| #[trigger] named_map(after).dom().contains(k)
        <==> want.dom().contains(k) by {
        if named_map(after).dom().contains(k) {
            let i = choose|i: int| 0 <= i < after.len() && (#[trigger] after[i]).0 == k;
            assert(map.dom().contains(listing[i].0));
        }
        if map.dom().contains(k) {
            let i = choose|i: int| 0 <= i < listing.len() && (#[trigger] listing[i]).0 == k;
            assert(named_map(after).dom().contains(after[i].0));
        }
    }
    assert forall|k: Seq<char>| #[trigger] named_map(after).dom().contains(k) implies named_map(
        after,
    )[k] == want[k] by {
        let i = choose|i: int| 0 <= i < after.len() && (#[trigger] after[i]).0 == k;
        assert(named_map(after)[after[i].0] == after[i].1);
        assert(map[listing[i].0] == listing[i].1);
    }
    assert(named_map(after) =~= want);
}

/// The script value for a JSON value.
pub fn json_to_dynamic(value: &JsonValue) -> (d: rhai::Dynamic)
    ensures
        script_model(d) == script_of(value@),
    decreases value@, 1int,
{
    broadcast use value_view;

    match value {
        JsonValue::Null => dynamic_build(ScriptNode::Unit),
        JsonValue::Bool(b) => dynamic_build(ScriptNode::Bool(*b)),
        JsonValue::Number(n) => match (n.as_i64(), n.as_u64(), n.float_bits()) {
            (Some(i), _, _) => dynamic_build(ScriptNode::Int(i)),
            (None, Some(u), _) => dynamic_build(ScriptNode::Float(float_from_u64(u))),
            (None, None, Some(bits)) => dynamic_build(ScriptNode::Float(bits)),
            (None, None, None) => dynamic_build(ScriptNode::Unit),
        },
        JsonValue::String(s) => dynamic_build(ScriptNode::Text(s.clone())),
        JsonValue::Array(items) => {
            let ghost models = values_view(items@);
            let ghost want = script_of(value@)->Array_0;
            let mut out: Vec<rhai::Dynamic> = Vec::new();
            for i in 0..items.len()
                invariant
                    models == values_view(items@),
                    value@ == JsonView::Array(models),
                    want == script_of(value@)->Array_0,
                    want.len() == models.len(),
                    node_items(out@) == want.take(i as int),
                decreases items.len() - i,
            {
                let ghost before = out@;
                assert(decreases_to!(value@ => value@->Array_0));
                assert(decreases_to!(models => models[i as int]));
                let d = json_to_dynamic(&items[i]);
                out.push(d);
                assert(node_items(out@) =~= node_items(before).push(script_model(d)));
                assert(want[i as int] == script_of(models[i as int]));
                assert(want.take(i + 1) =~= want.take(i as int).push(want[i as int]));
            }
            assert(want.take(want.len() as int) =~= want);
            dynamic_build(ScriptNode::List(out))
        },
        JsonValue::Object(map) => json_map_to_dynamic(map),
    }
}

/// The script value for a map of JSON values.
pub fn json_map_to_dynamic(map: &StateMap) -> (d: rhai::Dynamic)
    ensures
        script_model(d) == script_of(JsonView::Object(map@)),
    decreases JsonView::Object(map@), 0int,
{
    let ghost model = JsonView::Object(map@);
    let mut out: Vec<(String, rhai::Dynamic)> = Vec::new();
    let n: usize = map.len();
    for i in 0..n
        invariant
            model == JsonView::Object(map@),
            map@.dom().finite(),
            n == map@.len(),
            out@.len() == i,
            i > 0 ==> map.listing_ok(),
            i > 0 ==> node_entries(out@) == scripted(map.listing()).take(i as int),
        decreases n - i,
    {
        let ghost before = out@;
        let ghost listing = map.listing();
        let (name, v) = map.entry(i);
        proof {
            lemma_entries_map(listing);
            assert(map@.dom().contains(listing[i as int].0));
            assert(map@[listing[i as int].0] == listing[i as int].1);
            assert(decreases_to!(model => model->Object_0));
            assert(decreases_to!(map@ => map@[name@]));
        }
        let d = json_to_dynamic(v);
        out.push((name.to_owned(), d));
        let ghost all = scripted(listing);
        assert(node_entries(out@) =~= node_entries(before).push((name@, script_model(d))));
        assert(all.take(i + 1) =~= all.take(i as int).push(all[i as int]));
        assert(all.take(0) =~= node_entries(before.take(0)));
    }
    proof {
        if n == 0 {
            assert(map@.dom() =~= Set::empty());
            let want = script_of(model)->Table_0;
            assert(want =~= Map::empty());
        } else {
            lemma_scripted(map.listing());
            assert(scripted(map.listing()).take(n as int) =~= scripted(map.listing()));
        }
    }
    dynamic_build(ScriptNode::Table(out))
}

proof fn lemma_named_finite(entries: Seq<(Seq<char>, ScriptView)>)
    ensures
        named_map(entries).dom().finite(),
    decreases entries.len(),
{
    if entries.len() > 0 {
        lemma_named_finite(entries.drop_last());
    }
}

proof fn lemma_table_fits(models: Seq<(Seq<char>, ScriptView)>, made: Seq<(Seq<char>, JsonView)>)
    requires
        names_differ(models),
        made.len() == models.len(),
        forall|i: int|
            0 <= i < models.len() ==> (#[trigger] made[i]).0 == models[i].0 && json_fits(
                models[i].1,
                made[i].1,
            ),
    ensures
        json_fits(ScriptView::Table(named_map(models)), JsonView::Object(entries_map(made))),
{
    let map = named_map(models);
    let out = entries_map(made);
    assert forall|i: int, j: int| 0 <= i < j < made.len() implies (#[trigger] made[i]).0 != (
    #[trigger] made[j]).0 by {
        assert(models[i].0 != models[j].0);
    }
    lemma_entries_map(made);
    lemma_named_map(models);
    assert forall|k: Seq<char>| out.dom().contains(k) <==> map.dom().contains(k) by {
        if out.dom().contains(k) {
            let i = choose|i: int| 0 <= i < made.len() && (#[trigger] made[i]).0 == k;
            assert(map.dom().contains(models[i].0));
        }
        if map.dom().contains(k) {
            let i = choose|i: int| 0 <= i < models.len() && (#[trigger] models[i]).0 == k;
            assert(out.dom().contains(made[i].0));
        }
    }
    assert(out.dom() =~= map.dom());
    assert forall|k: Seq<char>| map.dom().finite() && map.dom().contains(k) implies json_fits(
        map[k],
        #[trigger] out[k],
    ) by {
        let i = choose|i: int| 0 <= i < models.len() && (#[trigger] models[i]).0 == k;
        assert(map[models[i].0] == models[i].1);
        assert(out[made[i].0] == made[i].1);
    }
}

/// How many shared values are looked into on the way through one value. One that
/// contains itself would never end.
pub const MAX_SHARED: usize = 1_000;

/// The JSON value for a script value. Where the value is shared, the result tells
/// what it held when it was looked at, or `null` where it could not be.
pub fn dynamic_to_json(value: rhai::Dynamic) -> (r: JsonValue)
    ensures
        json_fits(script_model(value), r@),
        unshared(script_model(value)) ==> r@ == json_of(script_model(value)),
{
    let ghost model = script_model(value);
    let mut left: usize = MAX_SHARED;
    let r = value_to_json(value, &mut left);
    proof {
        if unshared(model) {
            unshared_values_are_exact(model, r@);
        }
    }
    r
}

fn value_to_json(value: rhai::Dynamic, left: &mut usize) -> (r: JsonValue)
    ensures
        json_fits(script_model(value), r@),
        *final(left) <= *old(left),
    decreases *old(left), script_model(value), 1int,
{
    broadcast use value_view;

    let ghost model = script_model(value);
    match dynamic_open(value) {
        ScriptNode::Unit => JsonValue::Null,
        ScriptNode::Bool(b) => JsonValue::Bool(b),
        ScriptNode::Int(i) => JsonValue::Number(Number::from_i64(i)),
        ScriptNode::Float(bits) => match Number::from_float_bits(bits) {
            Some(n) => JsonValue::Number(n),
            None => JsonValue::Null,
        },
        ScriptNode::Text(s) => JsonValue::String(s),
        ScriptNode::List(items) => JsonValue::Array(list_to_json(items, Ghost(model), left)),
        ScriptNode::Table(entries) => JsonValue::Object(table_to_json(entries, Ghost(model), left)),
        ScriptNode::Other => JsonValue::Null,
        ScriptNode::Shared(d) => {
            if *left == 0 {
                return JsonValue::Null;
            }
            *left = *left - 1;
            held_to_json(dynamic_held(&d), left)
        },
    }
}

/// The JSON value for what a shared value held, `null` where its lock could not be
/// taken. `left` counts down the shared values that may still be looked into.
pub fn held_to_json(held: Option<rhai::Dynamic>, left: &mut usize) -> (r: JsonValue)
    ensures
        match held {
            Some(d) => json_fits(script_model(d), r@),
            None => r@ == JsonView::Null,
        },
        *final(left) <= *old(left),
    decreases *old(left), script_model(held->0), 2int,
{
    broadcast use value_view;

    match held {
        Some(d) => value_to_json(d, left),
        None => JsonValue::Null,
    }
}

fn list_to_json(items: Vec<rhai::Dynamic>, Ghost(model): Ghost<ScriptView>, left: &mut usize) -> (r:
    Vec<JsonValue>)
    requires
        model == ScriptView::Array(node_items(items@)),
    ensures
        json_fits(model, JsonView::Array(values_view(r@))),
        *final(left) <= *old(left),
    decreases *old(left), model, 0int,
{
    let ghost all = items@;
    let ghost models = node_items(all);
    let mut out: Vec<JsonValue> = Vec::new();
    for v in it: items
        invariant
            it.seq() == all,
            models == node_items(all),
            model == ScriptView::Array(models),
            *left <= *old(left),
            out@.len() == it.index(),
            forall|j: int|
                0 <= j < it.index() ==> json_fits(models[j], (#[trigger] values_view(out@)[j])),
    {
        let ghost i = it.index() as int;
        let ghost before = out@;
        assert(models[i] == script_model(v));
        assert(decreases_to!(model => model->Array_0));
        assert(decreases_to!(models => models[i]));
        let w = value_to_json(v, left);
        out.push(w);
        assert(values_view(out@) =~= values_view(before).push(w@));
    }
    out
}

fn table_to_json(
    entries: Vec<(String, rhai::Dynamic)>,
    Ghost(model): Ghost<ScriptView>,
    left: &mut usize,
) -> (r: StateMap)
    requires
        model == ScriptView::Table(named_map(node_entries(entries@))),
        names_differ(node_entries(entries@)),
    ensures
        json_fits(model, JsonView::Object(r@)),
        *final(left) <= *old(left),
    decreases *old(left), model, 0int,
{
    let ghost all = entries@;
    let ghost models = node_entries(all);
    let ghost mut made = Seq::<(Seq<char>, JsonView)>::empty();
    let mut out = StateMap::new();
    proof {
        lemma_named_map(models);
        lemma_named_finite(models);
    }
    for entry in it: entries
        invariant
            it.seq() == all,
            models == node_entries(all),
            model == ScriptView::Table(named_map(models)),
            named_map(models).dom().finite(),
            forall|j: int|
                0 <= j < models.len() ==> named_map(models).dom().contains((#[trigger] models[j]).0)
                    && named_map(models)[models[j].0] == models[j].1,
            *left <= *old(left),
            made.len() == it.index(),
            out@ == entries_map(made),
            forall|j: int|
                0 <= j < made.len() ==> (#[trigger] made[j]).0 == models[j].0 && json_fits(
                    models[j].1,
                    made[j].1,
                ),
    {
        let ghost i = it.index() as int;
        let (name, v) = entry;
        assert(models[i] == (name@, script_model(v)));
        assert(decreases_to!(model => model->Table_0));
        assert(decreases_to!(named_map(models) => named_map(models)[models[i].0]));
        let w = value_to_json(v, left);
        proof {
            let before = made;
            made = made.push((name@, w@));
            assert(made.drop_last() =~= before);
        }
        out.insert(name.as_str(), w);
    }
    proof {
        lemma_table_fits(models, made);
    }
    out
}

/// A value that every script can hold without loss: its integers are signed
/// 64-bit numbers and its floats finite.
pub open spec fn fits_scripts(v: JsonView) -> bool
    decreases v,
{
    match v {
        JsonView::Number(NumberView::Int(i)) => i64::MIN <= i <= i64::MAX,
        JsonView::Number(NumberView::Float(bits)) => finite_bits(bits),
        JsonView::Array(items) => forall|i: int|
            0 <= i < items.len() ==> fits_scripts(#[trigger] items[i]),
        JsonView::Object(map) => map.dom().finite() && forall|k: Seq<char>|
            map.dom().finite() && map.dom().contains(k) ==> fits_scripts(#[trigger] map[k]),
        _ => true,
    }
}

/// A script that writes back what it read writes the value that it read. Nothing
/// that it reads is shared.
pub proof fn scripts_keep_values(v: JsonView)
    requires
        fits_scripts(v),
    ensures
        json_of(script_of(v)) == v,
        plain(script_of(v)),
        unshared(script_of(v)),
    decreases v,
{
    match v {
        JsonView::Array(items) => {
            let there = script_of(v)->Array_0;
            let back = json_of(script_of(v))->Array_0;
            assert forall|i: int| 0 <= i < items.len() implies #[trigger] back[i] == items[i] by {
                assert(fits_scripts(items[i]));
                scripts_keep_values(items[i]);
                assert(there[i] == script_of(items[i]));
            }
            assert(back =~= items);
            assert forall|i: int| 0 <= i < there.len() implies plain(#[trigger] there[i])
                && unshared(there[i]) by {
                assert(fits_scripts(items[i]));
                scripts_keep_values(items[i]);
                assert(there[i] == script_of(items[i]));
            }
        },
        JsonView::Object(map) => {
            let there = script_of(v)->Table_0;
            let back = json_of(script_of(v))->Object_0;
            assert(there.dom() =~= map.dom());
            assert forall|k: Seq<char>| #[trigger] back.dom().contains(k) implies back[k]
                == map[k] by {
                assert(map.dom().contains(k));
                assert(fits_scripts(map[k]));
                scripts_keep_values(map[k]);
                assert(there[k] == script_of(map[k]));
            }
            assert(back =~= map);
            assert forall|k: Seq<char>|
                there.dom().finite() && there.dom().contains(k) implies plain(#[trigger] there[k])
                && unshared(there[k]) by {
                assert(fits_scripts(map[k]));
                scripts_keep_values(map[k]);
                assert(there[k] == script_of(map[k]));
            }
        },
        _ => {},
    }
}

/// A variable that a script finds in its scope.
pub struct ScopeEntryView {
    pub name: Seq<char>,
    pub value: ScriptView,
}

/// A state, as a script sees it: a missing one is empty.
pub open spec fn state_or_empty(s: Option<Map<Seq<char>, JsonView>>) -> Map<Seq<char>, JsonView> {
    match s {
        Some(m) => m,
        None => Map::empty(),
    }
}

/// What a script that an event triggers finds in its scope.
pub open spec fn event_scope_of(e: EventView) -> Seq<ScopeEntryView> {
    seq![
        ScopeEntryView { name: "event_name"@, value: ScriptView::Str(e.name) },
        ScopeEntryView {
            name: "prev"@,
            value: script_of(JsonView::Object(state_or_empty(e.prev))),
        },
        ScopeEntryView {
            name: "curr"@,
            value: script_of(JsonView::Object(state_or_empty(e.curr))),
        },
    ]
}

pub open spec fn scope_view(scope: Seq<(&'static str, rhai::Dynamic)>) -> Seq<ScopeEntryView> {
    Seq::new(
        scope.len(),
        |i: int| ScopeEntryView { name: scope[i].0@, value: script_model(scope[i].1) },
    )
}

fn state_to_dynamic(state: &Option<StateMap>) -> (d: rhai::Dynamic)
    ensures
        script_model(d) == script_of(
            JsonView::Object(state_or_empty(crate::event::opt_state(*state))),
        ),
{
    match state {
        Some(m) => json_map_to_dynamic(m),
        None => json_map_to_dynamic(&StateMap::new()),
    }
}

/// What a script that an event triggers finds in its scope.
pub fn event_scope(event: &RawEvent) -> (r: Vec<(&'static str, rhai::Dynamic)>)
    ensures
        scope_view(r@) == event_scope_of(event@),
{
    let mut r: Vec<(&'static str, rhai::Dynamic)> = Vec::new();
    r.push(("event_name", dynamic_build(ScriptNode::Text(event.name.clone()))));
    r.push(("prev", state_to_dynamic(&event.prev)));
    r.push(("curr", state_to_dynamic(&event.curr)));
    assert(scope_view(r@) =~= event_scope_of(event@));
    r
}

/// What `get` hands a script: the value, or the unit value where reading failed.
pub fn script_get_result(result: &Result<JsonValue, String>) -> (d: rhai::Dynamic)
    ensures
        script_model(d) == (match *result {
            Ok(v) => script_of(v@),
            Err(_) => ScriptView::Unit,
        }),
{
    match result {
        Ok(v) => json_to_dynamic(v),
        Err(_) => dynamic_build(ScriptNode::Unit),
    }
}

/// Why `set` refuses to write a key, if it does. What the backend declares
/// decides.
pub open spec fn script_refusal(
    manifest: Result<Seq<crate::capability::CapabilityView>, Seq<char>>,
    key: Seq<char>,
) -> Option<Seq<char>> {
    match manifest {
        Err(e) => Some("failed to get manifest: "@ + e),
        Ok(manifest) => write_refusal(manifest, key),
    }
}

/// The model of what came of asking for a manifest.
pub open spec fn manifest_result(r: Result<CapabilityManifest, String>) -> Result<
    Seq<crate::capability::CapabilityView>,
    Seq<char>,
> {
    match r {
        Ok(m) => Ok(m@),
        Err(e) => Err(e@),
    }
}

/// Decides whether `set` may write a key: the value to write, or the message that
/// the script gets. The backend is asked only for a value that may be written.
pub fn script_set_value(
    manifest: &Result<CapabilityManifest, String>,
    key: &str,
    value: rhai::Dynamic,
) -> (r: Result<JsonValue, String>)
    ensures
        match script_refusal(manifest_result(*manifest), key@) {
            Some(refusal) => r matches Err(e) && e@ == refusal,
            None => r matches Ok(v) && json_fits(script_model(value), v@) && (unshared(
                script_model(value),
            ) ==> v@ == json_of(script_model(value))),
        },
{
    match manifest {
        Err(e) => Err(joined("failed to get manifest: ", e.as_str())),
        Ok(manifest) => match check_writable(manifest, key) {
            Ok(()) => Ok(dynamic_to_json(value)),
            Err(e) => Err(e),
        },
    }
}

/// What `set` hands a script once the backend was asked: nothing on success, a
/// message on failure.
pub fn script_set_result(result: &Result<(), String>) -> (r: String)
    ensures
        r@ == (match *result {
            Ok(()) => ""@,
            Err(e) => "adapter error: "@ + e@,
        }),
{
    match result {
        Ok(()) => "".to_owned(),
        Err(e) => joined("adapter error: ", e.as_str()),
    }
}

/// The error of a script that failed.
pub fn script_error(message: &str) -> (r: String)
    ensures
        r@ == "Script error: "@ + message@,
{
    joined("Script error: ", message)
}

/// The text that the debug format gives a script value.
pub uninterp spec fn debug_text(v: ScriptView) -> Seq<char>;

/// Formats a `rhai::Dynamic` with its `Debug` implementation. The text of a plain
/// value depends on what it holds alone. Shared values, and functions with what
/// they captured, show what is behind their locks, of which nothing is said here.
#[verifier::external_body]
fn dynamic_debug(d: &rhai::Dynamic) -> (r: String)
    ensures
        plain(script_model(*d)) ==> r@ == debug_text(script_model(*d)),
{
    format!("{:?}", d)
}

/// Calls `rhai::Dynamic::is_unit`, which looks behind the lock of a shared value:
/// of that nothing is said here.
#[verifier::external_body]
fn dynamic_is_unit(d: &rhai::Dynamic) -> (r: bool)
    ensures
        !(script_model(*d) is Shared) ==> r == (script_model(*d) == ScriptView::Unit),
{
    d.is_unit()
}

/// What to show of a result, given whether it is the unit value, and its text:
/// nothing of the unit value.
pub fn shown_result(is_unit: bool, text: String) -> (r: Option<String>)
    ensures
        r == (if is_unit {
            None
        } else {
            Some(text)
        }),
{
    if is_unit {
        None
    } else {
        Some(text)
    }
}

/// What a script that was run by name has to show: the text of its result, or
/// nothing where it has none. A shared result may be the unit value now and
/// another later.
pub fn script_output(result: &rhai::Dynamic) -> (r: Option<String>)
    ensures
        !(script_model(*result) is Shared) ==> (r is None <==> script_model(*result)
            == ScriptView::Unit),
        plain(script_model(*result)) ==> crate::capability::opt_string(r) == (if script_model(
            *result,
        ) == ScriptView::Unit {
            None
        } else {
            Some(debug_text(script_model(*result)))
        }),
{
    shown_result(dynamic_is_unit(result), dynamic_debug(result))
}

/// A key that is not declared writable is never written by a script, whatever
/// value it hands to `set`.
pub proof fn scripts_respect_the_manifest(
    manifest: Seq<crate::capability::CapabilityView>,
    key: Seq<char>,
)
    ensures
        script_refusal(Ok(manifest), key) is None <==> (
        crate::capability::manifest_find(manifest, key) matches Some(c) && c.access
            == crate::capability::AccessMode::ReadWrite),
{
}

/// Each value stands for the script value of its kind, and a script value for the JSON
/// value of its kind. An integer that scripts cannot hold is read as the nearest float, and
/// what JSON cannot hold is written as `null`.
pub proof fn kinds_correspond(b: bool, i: i64, u: u64, bits: u64, s: Seq<char>)
    ensures
        script_of(JsonView::Null) == ScriptView::Unit,
        script_of(JsonView::Bool(b)) == ScriptView::Bool(b),
        script_of(JsonView::Number(NumberView::Int(i as int))) == ScriptView::Int(i),
        u > i64::MAX ==> script_of(JsonView::Number(NumberView::Int(u as int)))
            == ScriptView::Float(
            nearest_float(u),
        ),
        script_of(JsonView::Number(NumberView::Float(bits))) == ScriptView::Float(bits),
        script_of(JsonView::Str(s)) == ScriptView::Str(s),
        json_of(ScriptView::Unit) == JsonView::Null,
        json_of(ScriptView::Bool(b)) == JsonView::Bool(b),
        json_of(ScriptView::Int(i)) == JsonView::Number(NumberView::Int(i as int)),
        finite_bits(bits) ==> json_of(ScriptView::Float(bits)) == JsonView::Number(
            NumberView::Float(bits),
        ),
        !finite_bits(bits) ==> json_of(ScriptView::Float(bits)) == JsonView::Null,
        json_of(ScriptView::Str(s)) == JsonView::Str(s),
        json_of(ScriptView::Other) == JsonView::Null,
{
}

/// Lists correspond item for item, and tables member for member.
pub proof fn parts_correspond(
    items: Seq<JsonView>,
    map: Map<Seq<char>, JsonView>,
    values: Seq<ScriptView>,
    table: Map<Seq<char>, ScriptView>,
    i: int,
    k: Seq<char>,
)
    requires
        map.dom().finite(),
        table.dom().finite(),
    ensures
        script_of(JsonView::Array(items)) is Array,
        script_of(JsonView::Array(items))->Array_0.len() == items.len(),
        0 <= i < items.len() ==> script_of(JsonView::Array(items))->Array_0[i] == script_of(
            items[i],
        ),
        script_of(JsonView::Object(map)) is Table,
        script_of(JsonView::Object(map))->Table_0.dom().contains(k) <==> map.dom().contains(k),
        map.dom().contains(k) ==> script_of(JsonView::Object(map))->Table_0[k] == script_of(map[k]),
        json_of(ScriptView::Array(values)) is Array,
        json_of(ScriptView::Array(values))->Array_0.len() == values.len(),
        0 <= i < values.len() ==> json_of(ScriptView::Array(values))->Array_0[i] == json_of(
            values[i],
        ),
        json_of(ScriptView::Table(table)) is Object,
        json_of(ScriptView::Table(table))->Object_0.dom().contains(k) <==> table.dom().contains(k),
        table.dom().contains(k) ==> json_of(ScriptView::Table(table))->Object_0[k] == json_of(
            table[k],
        ),
{
}

/// A value that fits the model of a script value has the same shape all the way down to
/// what is shared.
pub proof fn shapes_fit(
    items: Seq<ScriptView>,
    out: Seq<JsonView>,
    table: Map<Seq<char>, ScriptView>,
    object: Map<Seq<char>, JsonView>,
    i: int,
    k: Seq<char>,
    v: ScriptView,
    j: JsonView,
)
    requires
        table.dom().finite(),
    ensures
        json_fits(ScriptView::Array(items), j) ==> j is Array,
        json_fits(ScriptView::Array(items), JsonView::Array(out)) ==> out.len() == items.len(),
        json_fits(ScriptView::Array(items), JsonView::Array(out)) && 0 <= i < items.len()
            ==> json_fits(items[i], out[i]),
        json_fits(ScriptView::Table(table), j) ==> j is Object,
        json_fits(ScriptView::Table(table), JsonView::Object(object))
            ==> object.dom() == table.dom(),
        json_fits(ScriptView::Table(table), JsonView::Object(object)) && table.dom().contains(k)
            ==> json_fits(table[k], object[k]),
        json_fits(ScriptView::Shared, j),
        v !is Array && v !is Table && v !is Shared ==> (json_fits(v, j) <==> j == json_of(v)),
{
    if json_fits(ScriptView::Array(items), JsonView::Array(out)) && 0 <= i < items.len() {
        assert(json_fits(items[i], out[i]));
    }
    if json_fits(ScriptView::Table(table), JsonView::Object(object)) && table.dom().contains(k) {
        assert(json_fits(table[k], object[k]));
    }
}

/// A script is limited in depth, in the size of its values and in the number of its
/// operations.
pub proof fn scripts_are_limited()
    ensures
        script_limits().expr_depth == 64,
        script_limits().string_size == 10_000,
        script_limits().array_size == 1_000,
        script_limits().map_size == 500,
        script_limits().operations == 100_000,
{
}

/// A script that an event triggers finds the name of the event and both states, an empty
/// one for a state that is not there.
pub proof fn scopes_tell_of_the_event(e: EventView, m: Map<Seq<char>, JsonView>)
    ensures
        event_scope_of(e).len() == 3,
        event_scope_of(e)[0].name == "event_name"@ && event_scope_of(e)[0].value == ScriptView::Str(
            e.name,
        ),
        event_scope_of(e)[1].name == "prev"@ && event_scope_of(e)[2].name == "curr"@,
        e.prev == Some(m) ==> event_scope_of(e)[1].value == script_of(JsonView::Object(m)),
        e.curr == Some(m) ==> event_scope_of(e)[2].value == script_of(JsonView::Object(m)),
        e.prev is None ==> event_scope_of(e)[1].value == script_of(JsonView::Object(Map::empty())),
        e.curr is None ==> event_scope_of(e)[2].value == script_of(JsonView::Object(Map::empty())),
        state_or_empty(Some(m)) == m,
        state_or_empty(None) == Map::<Seq<char>, JsonView>::empty(),
{
}

/// A script is told why it cannot write a key: the key is not known or is read-only, or the
/// backend did not say.
pub proof fn scripts_are_told_why(
    manifest: Seq<crate::capability::CapabilityView>,
    key: Seq<char>,
    e: Seq<char>,
)
    ensures
        script_refusal(Ok(manifest), key) == write_refusal(manifest, key),
        script_refusal(Err(e), key) == Some("failed to get manifest: "@ + e),
{
}

/// A value is plain if nothing in it is shared or of a kind that JSON does not have, and
/// unshared if nothing in it is shared.
pub proof fn plain_values(
    v: ScriptView,
    items: Seq<ScriptView>,
    table: Map<Seq<char>, ScriptView>,
)
    requires
        table.dom().finite(),
    ensures
        !plain(ScriptView::Shared) && !plain(ScriptView::Other),
        !unshared(ScriptView::Shared) && unshared(ScriptView::Other),
        v !is Shared && v !is Other && v !is Array && v !is Table ==> plain(v) && unshared(v),
        plain(ScriptView::Array(items)) <==> forall|i: int|
            0 <= i < items.len() ==> plain(#[trigger] items[i]),
        unshared(ScriptView::Array(items)) <==> forall|i: int|
            0 <= i < items.len() ==> unshared(#[trigger] items[i]),
        plain(ScriptView::Table(table)) <==> forall|k: Seq<char>|
            table.dom().contains(k) ==> plain(#[trigger] table[k]),
        unshared(ScriptView::Table(table)) <==> forall|k: Seq<char>|
            table.dom().contains(k) ==> unshared(#[trigger] table[k]),
{
    let list = ScriptView::Array(items);
    if plain(list) {
        assert forall|i: int| 0 <= i < items.len() implies plain(#[trigger] items[i]) by {
            assert(plain(list->Array_0[i]));
        }
    }
    if unshared(list) {
        assert forall|i: int| 0 <= i < items.len() implies unshared(#[trigger] items[i]) by {
            assert(unshared(list->Array_0[i]));
        }
    }
}

/// A script that reads a key has its value, and nothing where the read failed. One that
/// sets a key hears nothing, or what the backend said.
pub proof fn scripts_hear_the_backend(
    value: JsonValue,
    error: String,
    got: rhai::Dynamic,
    missing: rhai::Dynamic,
    done: String,
    refused: String,
)
    requires
        call_ensures(script_get_result, (&Ok::<JsonValue, String>(value),), got),
        call_ensures(script_get_result, (&Err::<JsonValue, String>(error),), missing),
        call_ensures(script_set_result, (&Ok::<(), String>(()),), done),
        call_ensures(script_set_result, (&Err::<(), String>(error),), refused),
    ensures
        script_model(got) == script_of(value@),
        script_model(missing) == ScriptView::Unit,
        done@.len() == 0,
        refused@ == "adapter error: "@ + error@,
{
    reveal_strlit("");
}

/// A result that is nothing is not shown, and every other one is.
pub proof fn results_are_shown(text: String, shown: Option<String>, hidden: Option<String>)
    requires
        call_ensures(shown_result, (false, text), shown),
        call_ensures(shown_result, (true, text), hidden),
    ensures
        shown == Some(text),
        hidden is None,
{
}

} // verus!
