//! Maps from names to values of one type.

use crate::text::str_eq;
use vstd::prelude::*;

verus! {

/// The map that a list of named values stands for: a later value replaces an
/// earlier one of the same name.
pub open spec fn named_map<T>(entries: Seq<(Seq<char>, T)>) -> Map<Seq<char>, T>
    decreases entries.len(),
{
    if entries.len() == 0 {
        Map::empty()
    } else {
        named_map(entries.drop_last()).insert(entries.last().0, entries.last().1)
    }
}

/// No name occurs twice.
pub open spec fn names_differ<T>(entries: Seq<(Seq<char>, T)>) -> bool {
    forall|i: int, j: int|
        0 <= i < j < entries.len() ==> (#[trigger] entries[i]).0 != (#[trigger] entries[j]).0
}

/// In a list of distinct names each name stands for the value beside it.
pub proof fn lemma_named_map<T>(entries: Seq<(Seq<char>, T)>)
    requires
        names_differ(entries),
    ensures
        forall|k: Seq<char>| #[trigger]
            named_map(entries).dom().contains(k) ==> exists|i: int|
                0 <= i < entries.len() && (#[trigger] entries[i]).0 == k,
        forall|i: int|
            0 <= i < entries.len() ==> named_map(entries).dom().contains((#[trigger] entries[i]).0)
                && named_map(entries)[entries[i].0] == entries[i].1,
    decreases entries.len(),
{
    if entries.len() > 0 {
        let init = entries.drop_last();
        assert(names_differ(init)) by {
            assert forall|i: int, j: int| 0 <= i < j < init.len() implies (#[trigger] init[i]).0 != (
            #[trigger] init[j]).0 by {
                assert(entries[i].0 != entries[j].0);
            }
        }
        lemma_named_map(init);
        assert forall|k: Seq<char>| #[trigger]
            named_map(entries).dom().contains(k) implies exists|i: int|
            0 <= i < entries.len() && (#[trigger] entries[i]).0 == k by {
            if k == entries.last().0 {
                assert(entries[entries.len() - 1].0 == k);
            } else {
                assert(named_map(init).dom().contains(k));
                let i = choose|i: int| 0 <= i < init.len() && (#[trigger] init[i]).0 == k;
                assert(init[i].0 == k);
                assert(entries[i] == init[i]);
            }
        }
        assert forall|i: int| 0 <= i < entries.len() implies named_map(entries).dom().contains(
            (#[trigger] entries[i]).0,
        ) && named_map(entries)[entries[i].0] == entries[i].1 by {
            if i < init.len() {
                assert(init[i] == entries[i]);
                assert(entries[i].0 != entries[entries.len() - 1].0);
            }
        }
    }
}

/// Two maps from lists of distinct names are equal when each stands for what the
/// other lists.
proof fn lemma_same_map<T>(entries: Seq<(Seq<char>, T)>, m: Map<Seq<char>, T>)
    requires
        names_differ(entries),
        forall|i: int|
            0 <= i < entries.len() ==> m.dom().contains((#[trigger] entries[i]).0)
                && m[entries[i].0] == entries[i].1,
        forall|k: Seq<char>| #[trigger]
            m.dom().contains(k) ==> exists|i: int|
                0 <= i < entries.len() && (#[trigger] entries[i]).0 == k,
    ensures
        named_map(entries) == m,
{
    lemma_named_map(entries);
    assert forall|k: Seq<char>| #[trigger] named_map(entries).dom().contains(k)
        <==> m.dom().contains(k) by {
        if named_map(entries).dom().contains(k) {
            let i = choose|i: int| 0 <= i < entries.len() && (#[trigger] entries[i]).0 == k;
            assert(m.dom().contains(entries[i].0));
        }
        if m.dom().contains(k) {
            let i = choose|i: int| 0 <= i < entries.len() && (#[trigger] entries[i]).0 == k;
            assert(named_map(entries).dom().contains(entries[i].0));
        }
    }
    assert forall|k: Seq<char>| #[trigger] named_map(entries).dom().contains(k) implies named_map(
        entries,
    )[k] == m[k] by {
        let i = choose|i: int| 0 <= i < entries.len() && (#[trigger] entries[i]).0 == k;
        assert(m[entries[i].0] == entries[i].1);
    }
    assert(named_map(entries) =~= m);
}

/// A map from names to values.
#[derive(Debug)]
pub struct Keyed<V: View> {
    entries: Vec<(String, V)>,
}

/// The models of a sequence of named values.
pub open spec fn named_views<V: View>(entries: Seq<(String, V)>) -> Seq<(Seq<char>, V::V)> {
    Seq::new(entries.len(), |i: int| (entries[i].0@, entries[i].1@))
}

impl<V: View> View for Keyed<V> {
    type V = Map<Seq<char>, V::V>;

    open spec fn view(&self) -> Map<Seq<char>, V::V> {
        named_map(self.listed())
    }
}

impl<V: View> Keyed<V> {
    /// The values with their names, in the order in which the names were first
    /// inserted.
    pub closed spec fn listed(self) -> Seq<(Seq<char>, V::V)> {
        named_views(self.entries@)
    }

    #[verifier::type_invariant]
    spec fn inv(self) -> bool {
        names_differ(named_views(self.entries@))
    }

    /// The empty map.
    pub fn new() -> (m: Keyed<V>)
        ensures
            m@ == Map::<Seq<char>, V::V>::empty(),
            m.listed().len() == 0,
    {
        let m = Keyed { entries: Vec::new() };
        assert(m.listed().len() == 0);
        m
    }

    fn position(&self, name: &str) -> (r: Option<usize>)
        ensures
            match r {
                Some(i) => i < self.entries@.len() && self.entries@[i as int].0@ == name@,
                None => forall|j: int|
                    0 <= j < self.entries@.len() ==> (#[trigger] self.entries@[j]).0@ != name@,
            },
    {
        for i in 0..self.entries.len()
            invariant
                forall|j: int| 0 <= j < i ==> (#[trigger] self.entries@[j]).0@ != name@,
        {
            if str_eq(self.entries[i].0.as_str(), name) {
                return Some(i);
            }
        }
        None
    }

    /// The value under a name.
    pub fn get(&self, name: &str) -> (r: Option<&V>)
        ensures
            match r {
                Some(v) => self@.dom().contains(name@) && v@ == self@[name@],
                None => !self@.dom().contains(name@),
            },
    {
        proof {
            use_type_invariant(self);
            lemma_named_map(self.listed());
        }
        match self.position(name) {
            Some(i) => {
                assert(self.listed()[i as int].0 == name@);
                Some(&self.entries[i].1)
            },
            None => {
                proof {
                    if self@.dom().contains(name@) {
                        let j = choose|j: int|
                            0 <= j < self.listed().len() && (#[trigger] self.listed()[j]).0
                                == name@;
                        assert(self.entries@[j].0@ == name@);
                    }
                }
                None
            },
        }
    }

    /// Puts a value under a name, in place of what was there.
    pub fn insert(&mut self, name: &str, value: V)
        ensures
            final(self)@ == old(self)@.insert(name@, value@),
    {
        proof {
            use_type_invariant(&*self);
            lemma_named_map(self.listed());
        }
        let ghost before = self.listed();
        let ghost want = self@.insert(name@, value@);
        let slot = self.position(name);
        let mut entries: Vec<(String, V)> = Vec::new();
        std::mem::swap(&mut entries, &mut self.entries);
        match slot {
            Some(i) => {
                assert(before[i as int].0 == name@);
                entries[i] = (name.to_owned(), value);
                proof {
                    let after = named_views(entries@);
                    assert(forall|j: int|
                        0 <= j < after.len() ==> (#[trigger] after[j]).0 == before[j].0);
                    assert(names_differ(after));
                    assert forall|k: Seq<char>| #[trigger]
                        want.dom().contains(k) implies exists|j: int|
                        0 <= j < after.len() && (#[trigger] after[j]).0 == k by {
                        if k == name@ {
                            assert(after[i as int].0 == k);
                        } else {
                            let j = choose|j: int|
                                0 <= j < before.len() && (#[trigger] before[j]).0 == k;
                            assert(after[j].0 == k);
                        }
                    }
                    assert forall|j: int| 0 <= j < after.len() implies want.dom().contains(
                        (#[trigger] after[j]).0,
                    ) && want[after[j].0] == after[j].1 by {
                        assert(before[j].0 == after[j].0);
                        if j < i {
                            assert(before[j].0 != before[i as int].0);
                        } else if j > i {
                            assert(before[i as int].0 != before[j].0);
                        }
                    }
                    lemma_same_map(after, want);
                }
            },
            None => {
                entries.push((name.to_owned(), value));
                proof {
                    let after = named_views(entries@);
                    assert(after.drop_last() =~= before);
                    assert forall|i: int, j: int| 0 <= i < j < after.len() implies (
                    #[trigger] after[i]).0 != (#[trigger] after[j]).0 by {
                        if j < before.len() {
                            assert(before[i].0 != before[j].0);
                        } else {
                            assert(entries@[i].0@ != name@);
                        }
                    }
                }
            },
        }
        self.entries = entries;
    }

    /// Takes the value out from under a name.
    pub fn remove(&mut self, name: &str) -> (r: Option<V>)
        ensures
            final(self)@ == old(self)@.remove(name@),
            match r {
                Some(v) => old(self)@.dom().contains(name@) && v@ == old(self)@[name@],
                None => !old(self)@.dom().contains(name@),
            },
    {
        proof {
            use_type_invariant(&*self);
            lemma_named_map(self.listed());
        }
        let ghost before = self.listed();
        let ghost want = self@.remove(name@);
        match self.position(name) {
            Some(i) => {
                let mut entries: Vec<(String, V)> = Vec::new();
                std::mem::swap(&mut entries, &mut self.entries);
                let (_, value) = entries.remove(i);
                proof {
                    assert(before[i as int].0 == name@);
                    let after = named_views(entries@);
                    assert(after =~= before.remove(i as int));
                    assert forall|a: int, b: int| 0 <= a < b < after.len() implies (
                    #[trigger] after[a]).0 != (#[trigger] after[b]).0 by {
                        let x = if a < i {
                            a
                        } else {
                            a + 1
                        };
                        let y = if b < i {
                            b
                        } else {
                            b + 1
                        };
                        assert(before[x].0 != before[y].0);
                    }
                    assert forall|k: Seq<char>| #[trigger]
                        want.dom().contains(k) implies exists|j: int|
                        0 <= j < after.len() && (#[trigger] after[j]).0 == k by {
                        let j = choose|j: int|
                            0 <= j < before.len() && (#[trigger] before[j]).0 == k;
                        if j < i {
                            assert(after[j].0 == k);
                        } else {
                            assert(after[j - 1].0 == k);
                        }
                    }
                    assert forall|j: int| 0 <= j < after.len() implies want.dom().contains(
                        (#[trigger] after[j]).0,
                    ) && want[after[j].0] == after[j].1 by {
                        let x = if j < i {
                            j
                        } else {
                            j + 1
                        };
                        assert(before[x] == after[j]);
                        if x < i {
                            assert(before[x].0 != before[i as int].0);
                        } else {
                            assert(before[i as int].0 != before[x].0);
                        }
                    }
                    lemma_same_map(after, want);
                }
                self.entries = entries;
                Some(value)
            },
            None => {
                proof {
                    if self@.dom().contains(name@) {
                        let j = choose|j: int|
                            0 <= j < before.len() && (#[trigger] before[j]).0 == name@;
                        assert(self.entries@[j].0@ == name@);
                    }
                    assert(self@ =~= want);
                }
                None
            },
        }
    }

    /// The number of names.
    pub fn len(&self) -> (n: usize)
        ensures
            n == self.listed().len(),
            names_differ(self.listed()),
    {
        proof {
            use_type_invariant(self);
        }
        self.entries.len()
    }

    /// The entry at a position, with its name.
    pub fn entry(&self, i: usize) -> (r: (&str, &V))
        requires
            i < self.listed().len(),
        ensures
            (r.0@, r.1@) == self.listed()[i as int],
    {
        (self.entries[i].0.as_str(), &self.entries[i].1)
    }
}

/// Of two entries with one name the later counts, and no other name has an entry.
pub proof fn later_entries_count<T>(
    entries: Seq<(Seq<char>, T)>,
    name: Seq<char>,
    value: T,
    other: Seq<char>,
)
    ensures
        !named_map(Seq::<(Seq<char>, T)>::empty()).dom().contains(name),
        named_map(entries.push((name, value))).dom().contains(name),
        named_map(entries.push((name, value)))[name] == value,
        other != name ==> named_map(entries.push((name, value))).dom().contains(other) == named_map(
            entries,
        ).dom().contains(other),
        other != name && named_map(entries).dom().contains(other) ==> named_map(
            entries.push((name, value)),
        )[other] == named_map(entries)[other],
{
    assert(entries.push((name, value)).drop_last() =~= entries);
}

} // verus!
