//! JSON-shaped values and the string-keyed maps that events carry.
//!
//! A `JsonValue` is what a backend reports, what a script writes and what a watch
//! condition compares with. Its mathematical model is a `JsonView`.

use crate::text::str_eq;
use vstd::prelude::*;

verus! {

/// What a JSON number is: an integer, or a float given by its IEEE 754 bit
/// pattern.
pub enum NumberView {
    Int(int),
    Float(u64),
}

/// What a JSON value is. Objects are finite maps: the order of their entries
/// carries no meaning.
pub enum JsonView {
    Null,
    Bool(bool),
    Number(NumberView),
    Str(Seq<char>),
    Array(Seq<JsonView>),
    Object(Map<Seq<char>, JsonView>),
}

/// The bit pattern of positive zero.
pub const POSITIVE_ZERO: u64 = 0;

/// The bit pattern of negative zero.
pub const NEGATIVE_ZERO: u64 = 0x8000_0000_0000_0000;

/// A float is finite when its exponent bits are not all ones.
pub open spec fn finite_bits(bits: u64) -> bool {
    (bits / 0x10_0000_0000_0000) % 0x800 != 0x7ff
}

/// The two zeros are the only finite floats that are equal without having the
/// same bit pattern.
pub open spec fn same_float(a: u64, b: u64) -> bool {
    a == b || ((a == POSITIVE_ZERO || a == NEGATIVE_ZERO) && (b == POSITIVE_ZERO || b
        == NEGATIVE_ZERO))
}

/// Equality of numbers. An integer never equals a float.
pub open spec fn same_number(a: NumberView, b: NumberView) -> bool {
    match (a, b) {
        (NumberView::Int(x), NumberView::Int(y)) => x == y,
        (NumberView::Float(x), NumberView::Float(y)) => same_float(x, y),
        _ => false,
    }
}

/// Equality of JSON values, with numbers compared by `same_number`.
pub open spec fn same_json(a: JsonView, b: JsonView) -> bool
    decreases a,
{
    match (a, b) {
        (JsonView::Null, JsonView::Null) => true,
        (JsonView::Bool(x), JsonView::Bool(y)) => x == y,
        (JsonView::Number(x), JsonView::Number(y)) => same_number(x, y),
        (JsonView::Str(x), JsonView::Str(y)) => x == y,
        (JsonView::Array(x), JsonView::Array(y)) => {
            &&& x.len() == y.len()
            &&& forall|i: int| 0 <= i < x.len() ==> same_json(#[trigger] x[i], y[i])
        },
        (JsonView::Object(x), JsonView::Object(y)) => {
            &&& x.dom() == y.dom()
            &&& forall|k: Seq<char>|
                x.dom().finite() && x.dom().contains(k) ==> same_json(#[trigger] x[k], y[k])
        },
        _ => false,
    }
}

#[derive(Debug, Clone, Copy)]
enum Repr {
    PosInt(u64),
    NegInt(i64),
    Float(u64),
}

/// A JSON number: any integer from `i64::MIN` to `u64::MAX`, or a finite float.
#[derive(Debug, Clone, Copy)]
pub struct Number {
    repr: Repr,
}

impl Number {
    #[verifier::type_invariant]
    spec fn inv(self) -> bool {
        match self.repr {
            Repr::PosInt(_) => true,
            Repr::NegInt(i) => i < 0,
            Repr::Float(bits) => finite_bits(bits),
        }
    }

    pub closed spec fn model(self) -> NumberView {
        match self.repr {
            Repr::PosInt(u) => NumberView::Int(u as int),
            Repr::NegInt(i) => NumberView::Int(i as int),
            Repr::Float(bits) => NumberView::Float(bits),
        }
    }

    /// An unsigned number.
    pub fn from_u64(u: u64) -> (n: Number)
        ensures
            n@ == NumberView::Int(u as int),
    {
        Number { repr: Repr::PosInt(u) }
    }

    /// A signed number.
    pub fn from_i64(i: i64) -> (n: Number)
        ensures
            n@ == NumberView::Int(i as int),
    {
        if i < 0 {
            Number { repr: Repr::NegInt(i) }
        } else {
            Number { repr: Repr::PosInt(i as u64) }
        }
    }

    /// The number with the given bit pattern. Infinities and NaNs are no JSON
    /// numbers.
    pub fn from_float_bits(bits: u64) -> (n: Option<Number>)
        ensures
            n is Some <==> finite_bits(bits),
            n matches Some(number) ==> number@ == NumberView::Float(bits),
    {
        if (bits / 0x10_0000_0000_0000) % 0x800 == 0x7ff {
            None
        } else {
            Some(Number { repr: Repr::Float(bits) })
        }
    }

    /// The number as a `u64`, if it is an integer in that range.
    pub fn as_u64(&self) -> (r: Option<u64>)
        ensures
            r == number_as_u64(self@),
    {
        proof {
            use_type_invariant(self);
        }
        match self.repr {
            Repr::PosInt(u) => Some(u),
            _ => None,
        }
    }

    /// The number as an `i64`, if it is an integer in that range.
    pub fn as_i64(&self) -> (r: Option<i64>)
        ensures
            r == number_as_i64(self@),
    {
        match self.repr {
            Repr::PosInt(u) => if u <= 0x7fff_ffff_ffff_ffff {
                Some(u as i64)
            } else {
                None
            },
            Repr::NegInt(i) => Some(i),
            Repr::Float(_) => None,
        }
    }

    /// The bit pattern, if the number is a float.
    pub fn float_bits(&self) -> (r: Option<u64>)
        ensures
            r == (match self@ {
                NumberView::Float(bits) => Some(bits),
                _ => None::<u64>,
            }),
            r matches Some(bits) ==> finite_bits(bits),
            self@ matches NumberView::Int(i) ==> i64::MIN <= i <= u64::MAX,
    {
        proof {
            use_type_invariant(self);
        }
        match self.repr {
            Repr::Float(bits) => Some(bits),
            _ => None,
        }
    }

    /// Whether two numbers are the same.
    pub fn same(&self, other: &Number) -> (r: bool)
        ensures
            r == same_number(self@, other@),
    {
        proof {
            use_type_invariant(self);
            use_type_invariant(other);
        }
        match (&self.repr, &other.repr) {
            (Repr::PosInt(a), Repr::PosInt(b)) => *a == *b,
            (Repr::NegInt(a), Repr::NegInt(b)) => *a == *b,
            (Repr::Float(a), Repr::Float(b)) => *a == *b || ((*a == POSITIVE_ZERO || *a
                == NEGATIVE_ZERO) && (*b == POSITIVE_ZERO || *b == NEGATIVE_ZERO)),
            _ => false,
        }
    }
}

impl View for Number {
    type V = NumberView;

    open spec fn view(&self) -> NumberView {
        self.model()
    }
}

pub open spec fn number_as_u64(n: NumberView) -> Option<u64> {
    match n {
        NumberView::Int(i) => if 0 <= i <= u64::MAX {
            Some(i as u64)
        } else {
            None
        },
        NumberView::Float(_) => None,
    }
}

pub open spec fn number_as_i64(n: NumberView) -> Option<i64> {
    match n {
        NumberView::Int(i) => if i64::MIN <= i <= i64::MAX {
            Some(i as i64)
        } else {
            None
        },
        NumberView::Float(_) => None,
    }
}

/// A JSON value.
#[derive(Debug)]
pub enum JsonValue {
    Null,
    Bool(bool),
    Number(Number),
    String(String),
    Array(Vec<JsonValue>),
    Object(StateMap),
}

/// A finite map from names to values: the state before or after an event, the
/// conditions of a watch, a JSON object.
#[derive(Debug)]
pub struct StateMap {
    entries: Vec<(String, JsonValue)>,
}

/// The map that a list of entries stands for: a later entry replaces an earlier
/// one of the same name.
pub open spec fn entries_map(entries: Seq<(Seq<char>, JsonView)>) -> Map<Seq<char>, JsonView>
    decreases entries.len(),
{
    if entries.len() == 0 {
        Map::empty()
    } else {
        entries_map(entries.drop_last()).insert(entries.last().0, entries.last().1)
    }
}

/// No name occurs twice.
pub open spec fn distinct_names(entries: Seq<(Seq<char>, JsonView)>) -> bool {
    forall|i: int, j: int|
        0 <= i < j < entries.len() ==> (#[trigger] entries[i]).0 != (#[trigger] entries[j]).0
}

pub proof fn lemma_entries_map(entries: Seq<(Seq<char>, JsonView)>)
    ensures
        entries_map(entries).dom().finite(),
        forall|k: Seq<char>| #[trigger]
            entries_map(entries).dom().contains(k) ==> exists|i: int|
                0 <= i < entries.len() && (#[trigger] entries[i]).0 == k,
        forall|i: int|
            0 <= i < entries.len() ==> entries_map(entries).dom().contains(
                (#[trigger] entries[i]).0,
            ),
        distinct_names(entries) ==> forall|i: int|
            0 <= i < entries.len() ==> entries_map(entries)[(#[trigger] entries[i]).0]
                == entries[i].1,
        distinct_names(entries) ==> entries_map(entries).dom().len() == entries.len(),
    decreases entries.len(),
{
    if entries.len() > 0 {
        let init = entries.drop_last();
        lemma_entries_map(init);
        assert forall|k: Seq<char>| #[trigger]
            entries_map(entries).dom().contains(k) implies exists|i: int|
            0 <= i < entries.len() && (#[trigger] entries[i]).0 == k by {
            if k == entries.last().0 {
                assert(entries[entries.len() - 1].0 == k);
            } else {
                let i = choose|i: int| 0 <= i < init.len() && (#[trigger] init[i]).0 == k;
                assert(entries[i].0 == k);
            }
        }
        assert forall|i: int| 0 <= i < entries.len() implies entries_map(entries).dom().contains(
            (#[trigger] entries[i]).0,
        ) by {
            if i < init.len() {
                assert(init[i] == entries[i]);
            }
        }
        if distinct_names(entries) {
            assert forall|i: int, j: int| 0 <= i < j < init.len() implies (#[trigger] init[i]).0
                != (#[trigger] init[j]).0 by {
                assert(entries[i].0 != entries[j].0);
            }
            assert forall|i: int| 0 <= i < entries.len() implies entries_map(
                entries,
            )[(#[trigger] entries[i]).0] == entries[i].1 by {
                if i < init.len() {
                    assert(init[i] == entries[i]);
                    assert(entries[i].0 != entries[entries.len() - 1].0);
                }
            }
            assert(!entries_map(init).dom().contains(entries.last().0)) by {
                if entries_map(init).dom().contains(entries.last().0) {
                    let i = choose|i: int|
                        0 <= i < init.len() && (#[trigger] init[i]).0 == entries.last().0;
                    assert(entries[i].0 == entries[entries.len() - 1].0);
                }
            }
        }
    }
}

impl JsonValue {
    pub closed spec fn model(self) -> JsonView
        decreases self,
    {
        match self {
            JsonValue::Null => JsonView::Null,
            JsonValue::Bool(b) => JsonView::Bool(b),
            JsonValue::Number(n) => JsonView::Number(n@),
            JsonValue::String(s) => JsonView::Str(s@),
            JsonValue::Array(items) => JsonView::Array(
                Seq::new(
                    items@.len(),
                    |i: int|
                        if 0 <= i < items@.len() {
                            items@[i].model()
                        } else {
                            JsonView::Null
                        },
                ),
            ),
            JsonValue::Object(map) => JsonView::Object(entries_map(map.entry_models())),
        }
    }
}

impl View for JsonValue {
    type V = JsonView;

    open spec fn view(&self) -> JsonView {
        self.model()
    }
}

/// The models of a sequence of values.
pub open spec fn values_view(items: Seq<JsonValue>) -> Seq<JsonView> {
    Seq::new(items.len(), |i: int| items[i]@)
}

impl StateMap {
    spec fn entry_models(self) -> Seq<(Seq<char>, JsonView)>
        decreases self,
    {
        Seq::new(
            self.entries@.len(),
            |i: int|
                if 0 <= i < self.entries@.len() {
                    (self.entries@[i].0@, self.entries@[i].1.model())
                } else {
                    (Seq::empty(), JsonView::Null)
                },
        )
    }

    pub closed spec fn model(self) -> Map<Seq<char>, JsonView> {
        entries_map(self.entry_models())
    }

    #[verifier::type_invariant]
    spec fn inv(self) -> bool {
        distinct_names(entries_view(self.entries@))
    }

    proof fn lemma_model(self)
        ensures
            self.model() == entries_map(entries_view(self.entries@)),
    {
        assert(self.entry_models() =~= entries_view(self.entries@));
    }

    /// The empty map.
    pub fn new() -> (m: StateMap)
        ensures
            m@ == Map::<Seq<char>, JsonView>::empty(),
    {
        let m = StateMap { entries: Vec::new() };
        proof {
            m.lemma_model();
        }
        m
    }

    /// The number of names in the map.
    pub fn len(&self) -> (n: usize)
        ensures
            n == self@.len(),
            self@.dom().finite(),
    {
        proof {
            use_type_invariant(self);
            self.lemma_model();
            lemma_entries_map(entries_view(self.entries@));
        }
        self.entries.len()
    }

    /// Whether no member is held.
    pub fn is_empty(&self) -> (r: bool)
        ensures
            r == (self@ == Map::<Seq<char>, JsonView>::empty()),
    {
        proof {
            use_type_invariant(self);
            self.lemma_model();
            lemma_entries_map(entries_view(self.entries@));
        }
        let r = self.entries.len() == 0;
        proof {
            if !r {
                assert(self@.dom().contains(entries_view(self.entries@)[0].0));
            }
        }
        r
    }

    fn position(&self, name: &str) -> (r: Option<usize>)
        ensures
            match r {
                Some(i) => i < self.entries@.len() && self.entries@[i as int].0@ == name@,
                None => forall|j: int|
                    0 <= j < self.entries@.len() ==> (#[trigger] self.entries@[j]).0@ != name@,
            },
    {
        for i in 0..self.entries.len()
            invariant
                forall|j: int| 0 <= j < i ==> (#[trigger] self.entries@[j]).0@ != name@,
        {
            if str_eq(self.entries[i].0.as_str(), name) {
                return Some(i);
            }
        }
        None
    }

    /// The value under a name.
    pub fn get(&self, name: &str) -> (r: Option<&JsonValue>)
        ensures
            match r {
                Some(v) => self@.dom().contains(name@) && v@ == self@[name@],
                None => !self@.dom().contains(name@),
            },
    {
        proof {
            use_type_invariant(self);
            self.lemma_model();
            lemma_entries_map(entries_view(self.entries@));
        }
        let ghost ev = entries_view(self.entries@);
        match self.position(name) {
            Some(i) => {
                assert(ev[i as int].0 == name@);
                Some(&self.entries[i].1)
            },
            None => {
                proof {
                    if self@.dom().contains(name@) {
                        let j = choose|j: int| 0 <= j < ev.len() && (#[trigger] ev[j]).0 == name@;
                        assert(self.entries@[j].0@ == name@);
                    }
                }
                None
            },
        }
    }

    /// The entries, in the order in which their names were first inserted.
    pub closed spec fn listing(self) -> Seq<(Seq<char>, JsonView)> {
        entries_view(self.entries@)
    }

    /// The entry at a position, with its name.
    pub fn entry(&self, i: usize) -> (r: (&str, &JsonValue))
        requires
            i < self@.len(),
        ensures
            (r.0@, r.1@) == self.listing()[i as int],
            self.listing_ok(),
    {
        proof {
            use_type_invariant(self);
            self.lemma_model();
            lemma_entries_map(entries_view(self.entries@));
        }
        (self.entries[i].0.as_str(), &self.entries[i].1)
    }

    /// The listing names each key of the map once, with its value.
    pub open spec fn listing_ok(self) -> bool {
        &&& distinct_names(self.listing())
        &&& self@ == entries_map(self.listing())
        &&& self@.len() == self.listing().len()
    }

    /// Puts a value under a name, in place of what was there.
    pub fn insert(&mut self, name: &str, value: JsonValue)
        ensures
            final(self)@ == old(self)@.insert(name@, value@),
    {
        proof {
            use_type_invariant(&*self);
            self.lemma_model();
            lemma_entries_map(entries_view(self.entries@));
        }
        let ghost before = entries_view(self.entries@);
        let slot = self.position(name);
        let mut entries: Vec<(String, JsonValue)> = Vec::new();
        std::mem::swap(&mut entries, &mut self.entries);
        match slot {
            Some(i) => {
                entries[i] = (name.to_owned(), value);
                let ghost after = entries_view(entries@);
                proof {
                    assert(before[i as int].0 == name@);
                    assert(forall|j: int| 0 <= j < after.len() ==> (#[trigger] after[j]).0 == before[j].0);
                    assert(distinct_names(after));
                    assert(after =~= before.update(i as int, (before[i as int].0, after[i as int].1)));
                    lemma_replace(before, after, i as int);
                }
                self.entries = entries;
            },
            None => {
                entries.push((name.to_owned(), value));
                let ghost after = entries_view(entries@);
                proof {
                    assert(after.drop_last() =~= before);
                    assert forall|i: int, j: int| 0 <= i < j < after.len() implies (
                    #[trigger] after[i]).0 != (#[trigger] after[j]).0 by {
                        if j < before.len() {
                            assert(before[i].0 != before[j].0);
                        } else {
                            assert(entries@[i].0@ != name@);
                        }
                    }
                }
                self.entries = entries;
            },
        }
        proof {
            self.lemma_model();
        }
    }
}

/// Replacing the value of one entry of a list of distinct names.
proof fn lemma_replace(before: Seq<(Seq<char>, JsonView)>, after: Seq<(Seq<char>, JsonView)>, i: int)
    requires
        0 <= i < before.len(),
        after == before.update(i, (before[i].0, after[i].1)),
        distinct_names(before),
    ensures
        entries_map(after) == entries_map(before).insert(after[i].0, after[i].1),
{
    lemma_entries_map(before);
    assert forall|a: int, b: int| 0 <= a < b < after.len() implies (#[trigger] after[a]).0 != (
    #[trigger] after[b]).0 by {
        assert(before[a].0 != before[b].0);
    }
    lemma_entries_map(after);
    let want = entries_map(before).insert(after[i].0, after[i].1);
    assert forall|k: Seq<char>| #[trigger]
        entries_map(after).dom().contains(k) <==> want.dom().contains(k) by {
        if entries_map(after).dom().contains(k) {
            let j = choose|j: int| 0 <= j < after.len() && (#[trigger] after[j]).0 == k;
            assert(before[j].0 == k);
        }
        if want.dom().contains(k) && k != after[i].0 {
            let j = choose|j: int| 0 <= j < before.len() && (#[trigger] before[j]).0 == k;
            assert(after[j].0 == k);
        }
        if k == after[i].0 {
            assert(entries_map(after).dom().contains(after[i].0));
        }
    }
    assert forall|k: Seq<char>| #[trigger] entries_map(after).dom().contains(k) implies entries_map(
        after,
    )[k] == want[k] by {
        let j = choose|j: int| 0 <= j < after.len() && (#[trigger] after[j]).0 == k;
        assert(before[j].0 == k);
        assert(entries_map(after)[after[j].0] == after[j].1);
        assert(entries_map(before)[before[j].0] == before[j].1);
        if j != i {
            if j < i {
                assert(before[j].0 != before[i].0);
            } else {
                assert(before[i].0 != before[j].0);
            }
        }
    }
    assert(entries_map(after) =~= want);
}

/// The models of a sequence of entries.
pub open spec fn entries_view(entries: Seq<(String, JsonValue)>) -> Seq<(Seq<char>, JsonView)> {
    Seq::new(entries.len(), |i: int| (entries[i].0@, entries[i].1@))
}

impl View for StateMap {
    type V = Map<Seq<char>, JsonView>;

    open spec fn view(&self) -> Map<Seq<char>, JsonView> {
        self.model()
    }
}

/// The model of a value, variant by variant.
pub broadcast proof fn value_view(v: JsonValue)
    ensures
        #[trigger] v@ == (match v {
            JsonValue::Null => JsonView::Null,
            JsonValue::Bool(b) => JsonView::Bool(b),
            JsonValue::Number(n) => JsonView::Number(n@),
            JsonValue::String(s) => JsonView::Str(s@),
            JsonValue::Array(items) => JsonView::Array(values_view(items@)),
            JsonValue::Object(map) => JsonView::Object(map@),
        }),
{
    match v {
        JsonValue::Array(items) => {
            assert(v.model()->Array_0 =~= values_view(items@));
        },
        _ => {},
    }
}

impl Clone for JsonValue {
    fn clone(&self) -> (r: JsonValue)
        ensures
            r@ == self@,
        decreases self,
    {
        broadcast use value_view;

        match self {
            JsonValue::Null => JsonValue::Null,
            JsonValue::Bool(b) => JsonValue::Bool(*b),
            JsonValue::Number(n) => JsonValue::Number(*n),
            JsonValue::String(s) => JsonValue::String(s.clone()),
            JsonValue::Array(items) => {
                let mut copy: Vec<JsonValue> = Vec::new();
                for i in 0..items.len()
                    invariant
                        copy@.len() == i,
                        forall|j: int| 0 <= j < i ==> (#[trigger] copy@[j])@ == items@[j]@,
                        *self == JsonValue::Array(*items),
                    decreases items.len() - i,
                {
                    assert(decreases_to!(*self => (*self)->Array_0));
                    assert(decreases_to!(*items => items@[i as int]));
                    copy.push(items[i].clone());
                }
                assert(values_view(copy@) =~= values_view(items@));
                JsonValue::Array(copy)
            },
            JsonValue::Object(map) => JsonValue::Object(map.clone()),
        }
    }
}

impl Clone for StateMap {
    fn clone(&self) -> (r: StateMap)
        ensures
            r@ == self@,
        decreases self,
    {
        proof {
            use_type_invariant(self);
        }
        let mut copy: Vec<(String, JsonValue)> = Vec::new();
        for i in 0..self.entries.len()
            invariant
                copy@.len() == i,
                forall|j: int|
                    0 <= j < i ==> (#[trigger] copy@[j]).0@ == self.entries@[j].0@ && copy@[j].1@
                        == self.entries@[j].1@,
            decreases self.entries.len() - i,
        {
            copy.push((self.entries[i].0.clone(), self.entries[i].1.clone()));
        }
        assert(entries_view(copy@) =~= entries_view(self.entries@));
        let r = StateMap { entries: copy };
        proof {
            r.lemma_model();
            self.lemma_model();
        }
        r
    }
}

impl JsonValue {
    /// Whether two values are equal as JSON.
    pub fn same(&self, other: &JsonValue) -> (r: bool)
        ensures
            r == same_json(self@, other@),
        decreases self,
    {
        broadcast use value_view;

        match (self, other) {
            (JsonValue::Null, JsonValue::Null) => true,
            (JsonValue::Bool(a), JsonValue::Bool(b)) => *a == *b,
            (JsonValue::Number(a), JsonValue::Number(b)) => a.same(b),
            (JsonValue::String(a), JsonValue::String(b)) => str_eq(a.as_str(), b.as_str()),
            (JsonValue::Array(a), JsonValue::Array(b)) => {
                if a.len() != b.len() {
                    return false;
                }
                for i in 0..a.len()
                    invariant
                        a.len() == b.len(),
                        *self == JsonValue::Array(*a),
                        self@ == JsonView::Array(values_view(a@)),
                        other@ == JsonView::Array(values_view(b@)),
                        forall|j: int| 0 <= j < i ==> same_json(#[trigger] values_view(a@)[j], values_view(b@)[j]),
                    decreases a.len() - i,
                {
                    if !a[i].same(&b[i]) {
                        assert(!same_json(values_view(a@)[i as int], values_view(b@)[i as int]));
                        return false;
                    }
                }
                true
            },
            (JsonValue::Object(a), JsonValue::Object(b)) => a.same(b),
            _ => false,
        }
    }
}

impl StateMap {
    /// Whether two maps hold equal values under the same names.
    pub fn same(&self, other: &StateMap) -> (r: bool)
        ensures
            r == same_json(JsonView::Object(self@), JsonView::Object(other@)),
        decreases self,
    {
        let n = self.len();
        let m = other.len();
        let ghost ev = self.listing();
        proof {
            use_type_invariant(self);
            self.lemma_model();
            lemma_entries_map(ev);
        }
        if n != m {
            return false;
        }
        for i in 0..n
            invariant
                n == self.entries@.len(),
                n == self@.len(),
                ev == self.listing(),
                self@ == entries_map(ev),
                self@.dom().finite(),
                forall|j: int| 0 <= j < ev.len() ==> self@.dom().contains((#[trigger] ev[j]).0),
                forall|j: int| 0 <= j < ev.len() ==> self@[(#[trigger] ev[j]).0] == ev[j].1,
                forall|j: int|
                    0 <= j < i ==> other@.dom().contains((#[trigger] ev[j]).0) && same_json(
                        ev[j].1,
                        other@[ev[j].0],
                    ),
            decreases n - i,
        {
            assert(ev[i as int].0 == self.entries@[i as int].0@);
            assert(self@.dom().contains(ev[i as int].0));
            match other.get(self.entries[i].0.as_str()) {
                Some(v) => {
                    if !self.entries[i].1.same(v) {
                        assert(!same_json(self@[ev[i as int].0], other@[ev[i as int].0]));
                        return false;
                    }
                },
                None => {
                    return false;
                },
            }
        }
        proof {
            assert(self@.dom().subset_of(other@.dom())) by {
                assert forall|k: Seq<char>| self@.dom().contains(k) implies other@.dom().contains(
                    k,
                ) by {
                    let j = choose|j: int| 0 <= j < ev.len() && (#[trigger] ev[j]).0 == k;
                    assert(ev[j].0 == k);
                }
            }
            vstd::set_lib::lemma_subset_equality(self@.dom(), other@.dom());
            assert forall|k: Seq<char>|
                self@.dom().finite() && self@.dom().contains(k) implies same_json(
                #[trigger] self@[k],
                other@[k],
            ) by {
                let j = choose|j: int| 0 <= j < ev.len() && (#[trigger] ev[j]).0 == k;
                assert(self@[ev[j].0] == ev[j].1);
            }
        }
        true
    }
}

impl PartialEq for JsonValue {
    fn eq(&self, other: &JsonValue) -> (r: bool) {
        self.same(other)
    }
}

impl vstd::std_specs::cmp::PartialEqSpecImpl for JsonValue {
    open spec fn obeys_eq_spec() -> bool {
        true
    }

    open spec fn eq_spec(&self, other: &JsonValue) -> bool {
        same_json(self@, other@)
    }
}

impl PartialEq for StateMap {
    fn eq(&self, other: &StateMap) -> (r: bool) {
        self.same(other)
    }
}

impl vstd::std_specs::cmp::PartialEqSpecImpl for StateMap {
    open spec fn obeys_eq_spec() -> bool {
        true
    }

    open spec fn eq_spec(&self, other: &StateMap) -> bool {
        same_json(JsonView::Object(self@), JsonView::Object(other@))
    }
}

impl Default for StateMap {
    fn default() -> (m: StateMap)
        ensures
            m@ == Map::<Seq<char>, JsonView>::empty(),
    {
        StateMap::new()
    }
}

pub open spec fn json_as_bool(v: JsonView) -> Option<bool> {
    match v {
        JsonView::Bool(b) => Some(b),
        _ => None,
    }
}

pub open spec fn json_as_i64(v: JsonView) -> Option<i64> {
    match v {
        JsonView::Number(n) => number_as_i64(n),
        _ => None,
    }
}

pub open spec fn json_as_u64(v: JsonView) -> Option<u64> {
    match v {
        JsonView::Number(n) => number_as_u64(n),
        _ => None,
    }
}

pub open spec fn json_as_str(v: JsonView) -> Option<Seq<char>> {
    match v {
        JsonView::Str(s) => Some(s),
        _ => None,
    }
}

/// The member of an object under a name, and `Null` where there is none.
pub open spec fn json_member(v: JsonView, name: Seq<char>) -> JsonView {
    match v {
        JsonView::Object(map) => if map.dom().contains(name) {
            map[name]
        } else {
            JsonView::Null
        },
        _ => JsonView::Null,
    }
}

/// The elements of an array, and none where the value is no array.
pub open spec fn json_elements(v: JsonView) -> Seq<JsonView> {
    match v {
        JsonView::Array(items) => items,
        _ => Seq::empty(),
    }
}

/// A string value.
pub open spec fn text_json(s: Seq<char>) -> JsonView {
    JsonView::Str(s)
}

/// An integer value.
pub open spec fn int_json(i: int) -> JsonView {
    JsonView::Number(NumberView::Int(i))
}

/// The model of an optional string.
pub open spec fn opt_text(s: Option<&str>) -> Option<Seq<char>> {
    match s {
        Some(t) => Some(t@),
        None => None,
    }
}

impl JsonValue {
    /// A string value.
    pub fn text(s: &str) -> (v: JsonValue)
        ensures
            v@ == text_json(s@),
    {
        broadcast use value_view;

        JsonValue::String(s.to_owned())
    }

    /// An integer value.
    pub fn signed(i: i64) -> (v: JsonValue)
        ensures
            v@ == int_json(i as int),
    {
        broadcast use value_view;

        JsonValue::Number(Number::from_i64(i))
    }

    /// An unsigned integer value.
    pub fn unsigned(u: u64) -> (v: JsonValue)
        ensures
            v@ == int_json(u as int),
    {
        broadcast use value_view;

        JsonValue::Number(Number::from_u64(u))
    }

    /// A truth value.
    pub fn boolean(b: bool) -> (v: JsonValue)
        ensures
            v@ == JsonView::Bool(b),
    {
        broadcast use value_view;

        JsonValue::Bool(b)
    }

    /// Whether the value is null.
    pub fn is_null(&self) -> (r: bool)
        ensures
            r == (self@ == JsonView::Null),
    {
        broadcast use value_view;

        match self {
            JsonValue::Null => true,
            _ => false,
        }
    }

    /// The flag, where the value is one.
    pub fn as_bool(&self) -> (r: Option<bool>)
        ensures
            r == json_as_bool(self@),
    {
        broadcast use value_view;

        match self {
            JsonValue::Bool(b) => Some(*b),
            _ => None,
        }
    }

    /// The integer, where the value is one that fits.
    pub fn as_i64(&self) -> (r: Option<i64>)
        ensures
            r == json_as_i64(self@),
    {
        broadcast use value_view;

        match self {
            JsonValue::Number(n) => n.as_i64(),
            _ => None,
        }
    }

    /// The unsigned integer, where the value is one that fits.
    pub fn as_u64(&self) -> (r: Option<u64>)
        ensures
            r == json_as_u64(self@),
    {
        broadcast use value_view;

        match self {
            JsonValue::Number(n) => n.as_u64(),
            _ => None,
        }
    }

    /// The text, where the value is one.
    pub fn as_str(&self) -> (r: Option<&str>)
        ensures
            opt_text(r) == json_as_str(self@),
    {
        broadcast use value_view;

        match self {
            JsonValue::String(s) => Some(s.as_str()),
            _ => None,
        }
    }

    /// The elements, if the value is an array.
    pub fn as_array(&self) -> (r: Option<&Vec<JsonValue>>)
        ensures
            match r {
                Some(items) => self@ == JsonView::Array(values_view(items@)),
                None => !(self@ is Array),
            },
    {
        broadcast use value_view;

        match self {
            JsonValue::Array(items) => Some(items),
            _ => None,
        }
    }

    /// The members, if the value is an object.
    pub fn as_object(&self) -> (r: Option<&StateMap>)
        ensures
            match r {
                Some(map) => self@ == JsonView::Object(map@),
                None => !(self@ is Object),
            },
    {
        broadcast use value_view;

        match self {
            JsonValue::Object(map) => Some(map),
            _ => None,
        }
    }

    /// A copy of the member of an object, `Null` where there is none.
    pub fn member(&self, name: &str) -> (v: JsonValue)
        ensures
            v@ == json_member(self@, name@),
    {
        broadcast use value_view;

        match self {
            JsonValue::Object(map) => match map.get(name) {
                Some(v) => v.clone(),
                None => JsonValue::Null,
            },
            _ => JsonValue::Null,
        }
    }
}

/// The model of a result: a value, or the text of an error.
pub open spec fn value_result(r: Result<JsonValue, String>) -> Result<JsonView, Seq<char>> {
    match r {
        Ok(v) => Ok(v@),
        Err(e) => Err(e@),
    }
}

/// A state of one field.
pub open spec fn one_field(k: Seq<char>, v: JsonView) -> Map<Seq<char>, JsonView> {
    Map::<Seq<char>, JsonView>::empty().insert(k, v)
}

/// A state with one member.
pub fn state_of_one(k: &str, v: JsonValue) -> (m: StateMap)
    ensures
        m@ == one_field(k@, v@),
{
    let mut m = StateMap::new();
    m.insert(k, v);
    m
}

/// A state of two fields.
pub open spec fn two_fields(k1: Seq<char>, v1: JsonView, k2: Seq<char>, v2: JsonView) -> Map<
    Seq<char>,
    JsonView,
> {
    one_field(k1, v1).insert(k2, v2)
}

/// A state with two members.
pub fn state_of_two(k1: &str, v1: JsonValue, k2: &str, v2: JsonValue) -> (m: StateMap)
    ensures
        m@ == two_fields(k1@, v1@, k2@, v2@),
{
    let mut m = state_of_one(k1, v1);
    m.insert(k2, v2);
    m
}

/// Every JSON value equals itself.
pub proof fn same_is_reflexive(a: JsonView)
    ensures
        same_json(a, a),
    decreases a,
{
    match a {
        JsonView::Array(x) => {
            assert forall|i: int| 0 <= i < x.len() implies same_json(#[trigger] x[i], x[i]) by {
                same_is_reflexive(x[i]);
            }
        },
        JsonView::Object(x) => {
            assert forall|k: Seq<char>|
                x.dom().finite() && x.dom().contains(k) implies same_json(#[trigger] x[k], x[k]) by {
                same_is_reflexive(x[k]);
            }
        },
        _ => {},
    }
}

/// Equality of JSON values does not depend on the order of the two.
pub proof fn same_is_symmetric(a: JsonView, b: JsonView)
    requires
        same_json(a, b),
    ensures
        same_json(b, a),
    decreases a,
{
    match (a, b) {
        (JsonView::Array(x), JsonView::Array(y)) => {
            assert forall|i: int| 0 <= i < y.len() implies same_json(#[trigger] y[i], x[i]) by {
                assert(same_json(x[i], y[i]));
                same_is_symmetric(x[i], y[i]);
            }
        },
        (JsonView::Object(x), JsonView::Object(y)) => {
            assert forall|k: Seq<char>|
                y.dom().finite() && y.dom().contains(k) implies same_json(#[trigger] y[k], x[k]) by {
                assert(same_json(x[k], y[k]));
                same_is_symmetric(x[k], y[k]);
            }
        },
        _ => {},
    }
}

/// A value without floats, and with finitely many members.
pub open spec fn float_free(v: JsonView) -> bool
    decreases v,
{
    match v {
        JsonView::Number(NumberView::Float(_)) => false,
        JsonView::Array(items) => forall|i: int|
            0 <= i < items.len() ==> float_free(#[trigger] items[i]),
        JsonView::Object(map) => map.dom().finite() && forall|k: Seq<char>|
            map.dom().finite() && map.dom().contains(k) ==> float_free(#[trigger] map[k]),
        _ => true,
    }
}

/// Two values of which one has no floats count as the same exactly if they are
/// equal.
pub proof fn same_is_equality(a: JsonView, b: JsonView)
    requires
        float_free(a),
    ensures
        same_json(a, b) <==> a == b,
        same_json(b, a) <==> a == b,
    decreases a,
{
    same_is_reflexive(a);
    if same_json(a, b) {
        match (a, b) {
            (JsonView::Array(x), JsonView::Array(y)) => {
                assert forall|i: int| 0 <= i < x.len() implies #[trigger] x[i] == y[i] by {
                    assert(float_free(x[i]));
                    assert(same_json(x[i], y[i]));
                    same_is_equality(x[i], y[i]);
                }
                assert(x =~= y);
            },
            (JsonView::Object(x), JsonView::Object(y)) => {
                assert forall|k: Seq<char>| #[trigger] x.dom().contains(k) implies x[k] == y[k] by {
                    assert(float_free(x[k]));
                    assert(same_json(x[k], y[k]));
                    same_is_equality(x[k], y[k]);
                }
                assert(x =~= y);
            },
            _ => {},
        }
    }
    if same_json(b, a) {
        same_is_symmetric(b, a);
    }
}

/// Two floats count as the same exactly if they have the same bits or are both
/// zero, with whatever sign. A float is never the same as an integer.
pub proof fn same_floats(a: u64, b: u64, i: int)
    ensures
        same_json(
            JsonView::Number(NumberView::Float(a)),
            JsonView::Number(NumberView::Float(b)),
        ) <==> a == b || ((a == 0 || a == 0x8000_0000_0000_0000) && (b == 0 || b
            == 0x8000_0000_0000_0000)),
        !same_json(JsonView::Number(NumberView::Float(a)), JsonView::Number(NumberView::Int(i))),
        !same_json(JsonView::Number(NumberView::Int(i)), JsonView::Number(NumberView::Float(a))),
{
}

/// Lists count as the same exactly if they have the same length and the same
/// values at each place, and objects exactly if they have the same members with
/// the same values.
pub proof fn same_by_parts(
    x: Seq<JsonView>,
    y: Seq<JsonView>,
    m: Map<Seq<char>, JsonView>,
    n: Map<Seq<char>, JsonView>,
)
    requires
        m.dom().finite(),
    ensures
        same_json(JsonView::Array(x), JsonView::Array(y)) <==> x.len() == y.len() && (forall|i: int|
            0 <= i < x.len() ==> same_json(#[trigger] x[i], y[i])),
        same_json(JsonView::Object(m), JsonView::Object(n)) <==> (forall|k: Seq<char>| #[trigger]
            m.dom().contains(k) <==> n.dom().contains(k)) && (forall|k: Seq<char>| #[trigger]
            m.dom().contains(k) ==> same_json(m[k], n[k])),
{
    if forall|k: Seq<char>| #[trigger] m.dom().contains(k) <==> n.dom().contains(k) {
        assert(m.dom() =~= n.dom());
    }
}

/// A value reads as a truth value, an integer or a text exactly if it is one.
pub proof fn values_read_as_what_they_are(v: JsonView, b: bool, i: i64, u: u64, s: Seq<char>)
    ensures
        json_as_bool(v) == Some(b) <==> v == JsonView::Bool(b),
        json_as_i64(v) == Some(i) <==> v == JsonView::Number(NumberView::Int(i as int)),
        json_as_u64(v) == Some(u) <==> v == JsonView::Number(NumberView::Int(u as int)),
        json_as_str(v) == Some(s) <==> v == JsonView::Str(s),
{
}

/// A member of an object is read under its name, and nothing under any other name
/// or of any other value.
pub proof fn members_are_read(
    map: Map<Seq<char>, JsonView>,
    name: Seq<char>,
    value: JsonView,
    other: Seq<char>,
    v: JsonView,
)
    ensures
        json_member(JsonView::Object(map.insert(name, value)), name) == value,
        name != other ==> json_member(JsonView::Object(map.insert(name, value)), other)
            == json_member(JsonView::Object(map), other),
        json_member(JsonView::Object(map.remove(name)), name) == JsonView::Null,
        !(v is Object) ==> json_member(v, name) == JsonView::Null,
        v is Array ==> json_elements(v) == v->Array_0,
        !(v is Array) ==> json_elements(v).len() == 0,
{
    if name != other {
        assert(map.insert(name, value).dom().contains(other) == map.dom().contains(other));
    }
}

/// A state made of fields holds exactly these.
pub proof fn fields_are_held(
    a: Seq<char>,
    x: JsonView,
    b: Seq<char>,
    y: JsonView,
    k: Seq<char>,
)
    ensures
        one_field(a, x).dom().contains(k) <==> k == a,
        one_field(a, x)[a] == x,
        two_fields(a, x, b, y).dom().contains(k) <==> k == a || k == b,
        two_fields(a, x, b, y)[b] == y,
        a != b ==> two_fields(a, x, b, y)[a] == x,
{
}

/// The bits of a float stand for a number exactly if the exponent is not all ones.
pub proof fn finite_floats(bits: u64)
    ensures
        finite_bits(bits) <==> bits & 0x7ff0_0000_0000_0000 != 0x7ff0_0000_0000_0000,
{
    assert((bits / 0x10_0000_0000_0000) % 0x800 == 0x7ff <==> bits & 0x7ff0_0000_0000_0000
        == 0x7ff0_0000_0000_0000) by (bit_vector);
}

/// Two values of which one has no floats are found to be the same exactly if they are
/// equal. So two truth values are the same only if both are true or both are false.
pub proof fn equal_values_are_found_the_same(a: JsonValue, b: JsonValue, r: bool)
    requires
        call_ensures(JsonValue::same, (&a, &b), r),
        float_free(a@) || float_free(b@),
    ensures
        r <==> a@ == b@,
{
    if float_free(a@) {
        same_is_equality(a@, b@);
    } else {
        same_is_equality(b@, a@);
    }
}

} // verus!
