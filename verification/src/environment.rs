//! Environment variables for scripts.

use crate::text::str_eq;
use vstd::prelude::*;

verus! {

/// A map from names to texts: the variables that a process is given.
#[derive(Debug)]
pub struct Variables {
    entries: Vec<(String, String)>,
}

/// The models of a sequence of pairs.
pub open spec fn pairs_view(entries: Seq<(String, String)>) -> Seq<(Seq<char>, Seq<char>)> {
    Seq::new(entries.len(), |i: int| (entries[i].0@, entries[i].1@))
}

/// The map that a list of pairs stands for: a later pair replaces an earlier one
/// of the same name.
pub open spec fn pairs_map(pairs: Seq<(Seq<char>, Seq<char>)>) -> Map<Seq<char>, Seq<char>>
    decreases pairs.len(),
{
    if pairs.len() == 0 {
        Map::empty()
    } else {
        pairs_map(pairs.drop_last()).insert(pairs.last().0, pairs.last().1)
    }
}

impl View for Variables {
    type V = Map<Seq<char>, Seq<char>>;

    open spec fn view(&self) -> Map<Seq<char>, Seq<char>> {
        pairs_map(self.listed())
    }
}

proof fn lemma_update_pair(pairs: Seq<(Seq<char>, Seq<char>)>, i: int, value: Seq<char>)
    requires
        0 <= i < pairs.len(),
        forall|j: int| i < j < pairs.len() ==> (#[trigger] pairs[j]).0 != pairs[i].0,
    ensures
        pairs_map(pairs.update(i, (pairs[i].0, value))) == pairs_map(pairs).insert(
            pairs[i].0,
            value,
        ),
    decreases pairs.len(),
{
    let after = pairs.update(i, (pairs[i].0, value));
    if i == pairs.len() - 1 {
        assert(after.drop_last() =~= pairs.drop_last());
        assert(pairs_map(after) =~= pairs_map(pairs).insert(pairs[i].0, value));
    } else {
        let init = pairs.drop_last();
        lemma_update_pair(init, i, value);
        assert(after.drop_last() =~= init.update(i, (init[i].0, value)));
        assert(after.last() == pairs.last());
        assert(pairs[pairs.len() - 1].0 != pairs[i].0);
        assert(pairs_map(after) =~= pairs_map(pairs).insert(pairs[i].0, value));
    }
}

impl Variables {
    /// The variables, in the order in which their names were first inserted.
    pub closed spec fn listed(self) -> Seq<(Seq<char>, Seq<char>)> {
        pairs_view(self.entries@)
    }

    /// No variables.
    pub fn new() -> (v: Variables)
        ensures
            v@ == Map::<Seq<char>, Seq<char>>::empty(),
    {
        Variables { entries: Vec::new() }
    }

    /// Gives a variable a value, in place of the one that it had.
    pub fn insert(&mut self, name: &str, value: &str)
        ensures
            final(self)@ == old(self)@.insert(name@, value@),
    {
        let ghost before = self.listed();
        let mut i: usize = self.entries.len();
        while i > 0
            invariant
                i <= self.entries@.len(),
                before == self.listed(),
                before == old(self).listed(),
                forall|j: int| i <= j < before.len() ==> (#[trigger] before[j]).0 != name@,
            decreases i,
        {
            i = i - 1;
            if str_eq(self.entries[i].0.as_str(), name) {
                assert(before[i as int].0 == name@);
                self.entries[i] = (name.to_owned(), value.to_owned());
                proof {
                    lemma_update_pair(before, i as int, value@);
                    assert(self.listed() =~= before.update(i as int, (name@, value@)));
                }
                return;
            }
            assert(before[i as int].0 != name@);
        }
        self.entries.push((name.to_owned(), value.to_owned()));
        assert(self.listed().drop_last() =~= before);
    }

    /// The variables, to be set one after the other.
    pub fn pairs(&self) -> (r: &Vec<(String, String)>)
        ensures
            pairs_map(pairs_view(r@)) == self@,
    {
        &self.entries
    }

    /// The value of a variable.
    pub fn get(&self, name: &str) -> (r: Option<&str>)
        ensures
            match r {
                Some(v) => self@.dom().contains(name@) && v@ == self@[name@],
                None => !self@.dom().contains(name@),
            },
    {
        let ghost all = self.listed();
        let mut i: usize = self.entries.len();
        assert(all.take(i as int) =~= all);
        while i > 0
            invariant
                i <= self.entries@.len(),
                all == self.listed(),
                self@.dom().contains(name@) == pairs_map(all.take(i as int)).dom().contains(name@),
                self@.dom().contains(name@) ==> self@[name@] == pairs_map(all.take(i as int))[name@],
            decreases i,
        {
            assert(all.take(i as int).drop_last() =~= all.take(i - 1));
            i = i - 1;
            assert(all.take(i + 1).last() == all[i as int]);
            if str_eq(self.entries[i].0.as_str(), name) {
                return Some(self.entries[i].1.as_str());
            }
        }
        None
    }
}

impl Clone for Variables {
    fn clone(&self) -> (r: Variables)
        ensures
            r@ == self@,
    {
        let mut entries: Vec<(String, String)> = Vec::new();
        for i in 0..self.entries.len()
            invariant
                entries@.len() == i,
                forall|j: int|
                    0 <= j < i ==> (#[trigger] entries@[j]).0@ == self.entries@[j].0@
                        && entries@[j].1@ == self.entries@[j].1@,
        {
            entries.push((self.entries[i].0.clone(), self.entries[i].1.clone()));
        }
        assert(pairs_view(entries@) =~= pairs_view(self.entries@));
        Variables { entries }
    }
}

impl Default for Variables {
    fn default() -> (v: Variables)
        ensures
            v@ == Map::<Seq<char>, Seq<char>>::empty(),
    {
        Variables::new()
    }
}

/// Of two pairs with one name the later counts, and no other name has a value.
pub proof fn later_pairs_count(
    pairs: Seq<(Seq<char>, Seq<char>)>,
    name: Seq<char>,
    value: Seq<char>,
    other: Seq<char>,
)
    ensures
        !pairs_map(Seq::empty()).dom().contains(name),
        pairs_map(pairs.push((name, value))).dom().contains(name),
        pairs_map(pairs.push((name, value)))[name] == value,
        other != name ==> pairs_map(pairs.push((name, value))).dom().contains(other) == pairs_map(
            pairs,
        ).dom().contains(other),
        other != name && pairs_map(pairs).dom().contains(other) ==> pairs_map(
            pairs.push((name, value)),
        )[other] == pairs_map(pairs)[other],
{
    assert(pairs.push((name, value)).drop_last() =~= pairs);
}

} // verus!
