//! JSON text, read and written by `serde_json`.

use crate::value::{
    distinct_names, entries_map, finite_bits, lemma_entries_map, value_view, values_view, JsonView,
    Number, NumberView, StateMap, JsonValue,
};
use vstd::prelude::*;

verus! {

/// `serde_json::Value`, as an opaque type.
#[verifier::external_type_specification]
#[verifier::external_body]
pub struct ExJsonValue(serde_json::Value);

/// What a `serde_json::Value` holds: its variant and, in an array or an object,
/// what its elements and members hold.
pub uninterp spec fn json_model(v: serde_json::Value) -> JsonView;

/// What `serde_json` reads from a text, `None` where the text is no JSON
/// document.
pub uninterp spec fn json_parse(text: Seq<char>) -> Option<JsonView>;

/// The compact text that `serde_json` writes for a value.
pub uninterp spec fn json_text(v: JsonView) -> Seq<char>;

/// The indented text that `serde_json` writes for a value.
pub uninterp spec fn json_pretty(v: JsonView) -> Seq<char>;

/// One level of a JSON value, with the outside values below it.
enum JsonNode {
    Null,
    Bool(bool),
    Unsigned(u64),
    Signed(i64),
    Float(u64),
    Text(String),
    List(Vec<serde_json::Value>),
    Table(Vec<(String, serde_json::Value)>),
}

spec fn node_items(items: Seq<serde_json::Value>) -> Seq<JsonView> {
    Seq::new(items.len(), |i: int| json_model(items[i]))
}

spec fn node_entries(entries: Seq<(String, serde_json::Value)>) -> Seq<(Seq<char>, JsonView)> {
    Seq::new(entries.len(), |i: int| (entries[i].0@, json_model(entries[i].1)))
}

spec fn node_model(n: JsonNode) -> JsonView {
    match n {
        JsonNode::Null => JsonView::Null,
        JsonNode::Bool(b) => JsonView::Bool(b),
        JsonNode::Unsigned(u) => JsonView::Number(NumberView::Int(u as int)),
        JsonNode::Signed(i) => JsonView::Number(NumberView::Int(i as int)),
        JsonNode::Float(bits) => JsonView::Number(NumberView::Float(bits)),
        JsonNode::Text(s) => JsonView::Str(s@),
        JsonNode::List(items) => JsonView::Array(node_items(items@)),
        JsonNode::Table(entries) => JsonView::Object(entries_map(node_entries(entries@))),
    }
}

/// Takes a `serde_json::Value` apart, by its variants and, for a number, by
/// `serde_json::Number::as_u64`, `as_i64` and `as_f64`: an unsigned integer, else
/// a negative integer, else a finite float. The members of an object have
/// distinct names.
#[verifier::external_body]
fn json_open(v: serde_json::Value) -> (n: JsonNode)
    ensures
        node_model(n) == json_model(v),
        n matches JsonNode::Float(bits) ==> finite_bits(bits),
        n matches JsonNode::Table(entries) ==> distinct_names(node_entries(entries@)),
{
    match v {
        serde_json::Value::Null => JsonNode::Null,
        serde_json::Value::Bool(b) => JsonNode::Bool(b),
        serde_json::Value::Number(n) => match (n.as_u64(), n.as_i64()) {
            (Some(u), _) => JsonNode::Unsigned(u),
            (None, Some(i)) => JsonNode::Signed(i),
            (None, None) => JsonNode::Float(n.as_f64().map_or(0, |f| f.to_bits())),
        },
        serde_json::Value::String(s) => JsonNode::Text(s),
        serde_json::Value::Array(items) => JsonNode::List(items),
        serde_json::Value::Object(map) => JsonNode::Table(map.into_iter().collect()),
    }
}

/// Builds a `serde_json::Value` with `serde_json::Value::from` and the variants
/// of that type. Of two members of one name the later counts, as it does when
/// entries are collected into a `serde_json::Map`.
#[verifier::external_body]
fn json_build(n: JsonNode) -> (v: serde_json::Value)
    requires
        n matches JsonNode::Float(bits) ==> finite_bits(bits),
    ensures
        json_model(v) == node_model(n),
{
    match n {
        JsonNode::Null => serde_json::Value::Null,
        JsonNode::Bool(b) => serde_json::Value::from(b),
        JsonNode::Unsigned(u) => serde_json::Value::from(u),
        JsonNode::Signed(i) => serde_json::Value::from(i),
        JsonNode::Float(bits) => serde_json::Value::from(rhai::FLOAT::from_bits(bits)),
        JsonNode::Text(s) => serde_json::Value::String(s),
        JsonNode::List(items) => serde_json::Value::Array(items),
        JsonNode::Table(entries) => serde_json::Value::Object(entries.into_iter().collect()),
    }
}

/// Calls `serde_json::from_str`. What it reads depends on the text alone.
#[verifier::external_body]
fn json_from_str(text: &str) -> (r: Option<serde_json::Value>)
    ensures
        match r {
            Some(v) => json_parse(text@) == Some(json_model(v)),
            None => json_parse(text@) is None,
        },
{
    serde_json::from_str(text).ok()
}

/// Calls `serde_json::Value::to_string`. The members of an object are written in
/// the order of their names, so the text depends on what the value holds alone.
/// No line break stands in it: between tokens nothing is written, and in a
/// string a line break is escaped. `null` is written as such.
#[verifier::external_body]
fn json_to_string(v: &serde_json::Value) -> (text: String)
    ensures
        text@ == json_text(json_model(*v)),
        !text@.contains('\n'),
        json_model(*v) == JsonView::Null ==> text@ == "null"@,
{
    v.to_string()
}

/// Formats a `serde_json::Value` with the alternate flag, which writes it
/// indented. The text depends on what the value holds alone.
#[verifier::external_body]
fn json_to_pretty(v: &serde_json::Value) -> (text: String)
    ensures
        text@ == json_pretty(json_model(*v)),
{
    format!("{:#}", v)
}

/// The library's value for a `serde_json::Value`.
pub fn from_outside(v: serde_json::Value) -> (r: JsonValue)
    ensures
        r@ == json_model(v),
    decreases json_model(v), 1int,
{
    broadcast use value_view;

    let ghost model = json_model(v);
    match json_open(v) {
        JsonNode::Null => JsonValue::Null,
        JsonNode::Bool(b) => JsonValue::Bool(b),
        JsonNode::Unsigned(u) => JsonValue::Number(Number::from_u64(u)),
        JsonNode::Signed(i) => JsonValue::Number(Number::from_i64(i)),
        JsonNode::Float(bits) => match Number::from_float_bits(bits) {
            Some(n) => JsonValue::Number(n),
            None => JsonValue::Null,
        },
        JsonNode::Text(s) => JsonValue::String(s),
        JsonNode::List(items) => JsonValue::Array(list_from_outside(items, Ghost(model))),
        JsonNode::Table(entries) => JsonValue::Object(table_from_outside(entries, Ghost(model))),
    }
}

fn list_from_outside(items: Vec<serde_json::Value>, Ghost(model): Ghost<JsonView>) -> (r: Vec<
    JsonValue,
>)
    requires
        model == JsonView::Array(node_items(items@)),
    ensures
        values_view(r@) == node_items(items@),
    decreases model, 0int,
{
    let ghost all = items@;
    let ghost models = node_items(all);
    let mut out: Vec<JsonValue> = Vec::new();
    for v in it: items
        invariant
            it.seq() == all,
            models == node_items(all),
            model == JsonView::Array(models),
            values_view(out@) == models.take(it.index() as int),
    {
        let ghost i = it.index() as int;
        let ghost before = out@;
        assert(models[i] == json_model(v));
        assert(decreases_to!(model => model->Array_0));
        assert(decreases_to!(models => models[i]));
        let w = from_outside(v);
        out.push(w);
        assert(values_view(out@) =~= values_view(before).push(w@));
        assert(models.take(i + 1) =~= models.take(i).push(models[i]));
    }
    assert(models.take(models.len() as int) =~= models);
    out
}

fn table_from_outside(
    entries: Vec<(String, serde_json::Value)>,
    Ghost(model): Ghost<JsonView>,
) -> (r: StateMap)
    requires
        model == JsonView::Object(entries_map(node_entries(entries@))),
        distinct_names(node_entries(entries@)),
    ensures
        r@ == entries_map(node_entries(entries@)),
    decreases model, 0int,
{
    let ghost all = entries@;
    let ghost models = node_entries(all);
    let mut out = StateMap::new();
    proof {
        lemma_entries_map(models);
    }
    for entry in it: entries
        invariant
            it.seq() == all,
            models == node_entries(all),
            model == JsonView::Object(entries_map(models)),
            entries_map(models).dom().finite(),
            forall|j: int|
                0 <= j < models.len() ==> entries_map(models).dom().contains(
                    (#[trigger] models[j]).0,
                ) && entries_map(models)[models[j].0] == models[j].1,
            out@ == entries_map(models.take(it.index() as int)),
    {
        let ghost i = it.index() as int;
        let (name, v) = entry;
        assert(models[i] == (name@, json_model(v)));
        assert(decreases_to!(model => model->Object_0));
        assert(decreases_to!(entries_map(models) => entries_map(models)[models[i].0]));
        let w = from_outside(v);
        out.insert(name.as_str(), w);
        assert(models.take(i + 1).drop_last() =~= models.take(i));
        assert(models.take(i + 1).last() == models[i]);
    }
    assert(models.take(models.len() as int) =~= models);
    out
}

/// The `serde_json::Value` for a value of the library.
pub fn to_outside(v: &JsonValue) -> (r: serde_json::Value)
    ensures
        json_model(r) == v@,
    decreases v@,
{
    broadcast use value_view;

    match v {
        JsonValue::Null => json_build(JsonNode::Null),
        JsonValue::Bool(b) => json_build(JsonNode::Bool(*b)),
        JsonValue::Number(n) => match (n.as_u64(), n.as_i64(), n.float_bits()) {
            (Some(u), _, _) => json_build(JsonNode::Unsigned(u)),
            (None, Some(i), _) => json_build(JsonNode::Signed(i)),
            (None, None, Some(bits)) => json_build(JsonNode::Float(bits)),
            (None, None, None) => json_build(JsonNode::Null),
        },
        JsonValue::String(s) => json_build(JsonNode::Text(s.clone())),
        JsonValue::Array(items) => {
            let mut out: Vec<serde_json::Value> = Vec::new();
            for i in 0..items.len()
                invariant
                    v@ == JsonView::Array(values_view(items@)),
                    node_items(out@) == values_view(items@).take(i as int),
                decreases items.len() - i,
            {
                let ghost before = out@;
                let ghost models = values_view(items@);
                assert(decreases_to!(v@ => v@->Array_0));
                assert(decreases_to!(models => models[i as int]));
                let w = to_outside(&items[i]);
                out.push(w);
                assert(node_items(out@) =~= node_items(before).push(json_model(w)));
                assert(models.take(i + 1) =~= models.take(i as int).push(models[i as int]));
            }
            assert(values_view(items@).take(items@.len() as int) =~= values_view(items@));
            json_build(JsonNode::List(out))
        },
        JsonValue::Object(map) => {
            let mut out: Vec<(String, serde_json::Value)> = Vec::new();
            let n: usize = map.len();
            for i in 0..n
                invariant
                    v@ == JsonView::Object(map@),
                    map@.dom().finite(),
                    n == map@.len(),
                    out@.len() == i,
                    i > 0 ==> map.listing_ok(),
                    i > 0 ==> node_entries(out@) == map.listing().take(i as int),
                decreases n - i,
            {
                let ghost before = out@;
                let ghost models = map.listing();
                let (name, w) = map.entry(i);
                proof {
                    lemma_entries_map(models);
                    assert(map@.dom().contains(models[i as int].0));
                    assert(map@[models[i as int].0] == models[i as int].1);
                    assert(decreases_to!(v@ => v@->Object_0));
                    assert(decreases_to!(map@ => map@[name@]));
                }
                let x = to_outside(w);
                out.push((name.to_owned(), x));
                assert(node_entries(out@) =~= node_entries(before).push((name@, json_model(x))));
                assert(models.take(i + 1) =~= models.take(i as int).push(models[i as int]));
                assert(models.take(0) =~= node_entries(before.take(0)));
            }
            proof {
                if n == 0 {
                    assert(map@.dom() =~= Set::empty());
                    assert(map@ =~= Map::empty());
                } else {
                    assert(map.listing().take(n as int) =~= map.listing());
                }
            }
            json_build(JsonNode::Table(out))
        },
    }
}

/// The model of an optional value.
pub open spec fn opt_json(v: Option<JsonValue>) -> Option<JsonView> {
    match v {
        Some(v) => Some(v@),
        None => None,
    }
}

/// Reads a JSON document.
pub fn parse_json(text: &str) -> (r: Option<JsonValue>)
    ensures
        opt_json(r) == json_parse(text@),
{
    match json_from_str(text) {
        Some(v) => Some(from_outside(v)),
        None => None,
    }
}

/// Writes a value as JSON, in one line.
pub fn to_text(v: &JsonValue) -> (r: String)
    ensures
        r@ == json_text(v@),
        !r@.contains('\n'),
        v@ == JsonView::Null ==> r@ == "null"@,
{
    json_to_string(&to_outside(v))
}

/// Writes a value as indented JSON.
pub fn to_pretty(v: &JsonValue) -> (r: String)
    ensures
        r@ == json_pretty(v@),
{
    json_to_pretty(&to_outside(v))
}

} // verus!
