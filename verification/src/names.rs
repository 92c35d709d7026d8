//! Sets of event names.

use crate::text::{lex_less, lex_less_total, lex_less_transitive, str_eq, text_less};
use vstd::prelude::*;

verus! {

/// A set of names. Each name occurs once, in the order of insertion.
#[derive(Debug)]
pub struct NameSet {
    names: Vec<String>,
}

/// The models of a sequence of strings.
pub open spec fn texts(names: Seq<String>) -> Seq<Seq<char>> {
    Seq::new(names.len(), |i: int| names[i]@)
}

impl View for NameSet {
    type V = Set<Seq<char>>;

    open spec fn view(&self) -> Set<Seq<char>> {
        self.listed().to_set()
    }
}

impl NameSet {
    /// The names, in the order of insertion.
    pub closed spec fn listed(self) -> Seq<Seq<char>> {
        texts(self.names@)
    }

    #[verifier::type_invariant]
    spec fn inv(self) -> bool {
        self.listed().no_duplicates()
    }

    /// The empty set.
    pub fn new() -> (s: NameSet)
        ensures
            s@ == Set::<Seq<char>>::empty(),
    {
        let s = NameSet { names: Vec::new() };
        assert(s@ =~= Set::<Seq<char>>::empty());
        s
    }

    /// Whether a name is in the set.
    pub fn contains(&self, name: &str) -> (r: bool)
        ensures
            r == self@.contains(name@),
    {
        for i in 0..self.names.len()
            invariant
                forall|j: int| 0 <= j < i ==> (#[trigger] self.names@[j])@ != name@,
        {
            if str_eq(self.names[i].as_str(), name) {
                assert(self.listed()[i as int] == name@);
                return true;
            }
        }
        proof {
            if self@.contains(name@) {
                let j = choose|j: int|
                    0 <= j < self.listed().len() && self.listed()[j] == name@;
                assert(self.names@[j]@ == name@);
            }
        }
        false
    }

    /// Adds a name.
    pub fn insert(&mut self, name: &str)
        ensures
            final(self)@ == old(self)@.insert(name@),
    {
        proof {
            use_type_invariant(&*self);
        }
        if self.contains(name) {
            assert(self@.insert(name@) =~= self@);
            return;
        }
        let ghost before = self.listed();
        let mut names: Vec<String> = Vec::new();
        std::mem::swap(&mut names, &mut self.names);
        names.push(name.to_owned());
        let ghost after = texts(names@);
        proof {
            assert(after =~= before.push(name@));
            assert forall|i: int, j: int|
                0 <= i < after.len() && 0 <= j < after.len() && i != j implies after[i]
                != after[j] by {
                if i == before.len() {
                    assert(before[j] == after[j]);
                    assert(before.to_set().contains(before[j]));
                } else if j == before.len() {
                    assert(before[i] == after[i]);
                    assert(before.to_set().contains(before[i]));
                } else {
                    assert(before[i] != before[j]);
                }
            }
            assert(after.to_set() =~= before.to_set().insert(name@)) by {
                assert forall|n: Seq<char>| #[trigger] before.to_set().insert(name@).contains(
                    n,
                ) implies after.to_set().contains(n) by {
                    if n == name@ {
                        assert(after[before.len() as int] == n);
                    } else {
                        let j = choose|j: int| 0 <= j < before.len() && before[j] == n;
                        assert(after[j] == n);
                    }
                }
                assert forall|n: Seq<char>| #[trigger] after.to_set().contains(
                    n,
                ) implies before.to_set().insert(name@).contains(n) by {
                    let j = choose|j: int| 0 <= j < after.len() && after[j] == n;
                    if j < before.len() {
                        assert(before[j] == n);
                    }
                }
            }
        }
        self.names = names;
    }

    /// Whether no name is held.
    pub fn is_empty(&self) -> (r: bool)
        ensures
            r == (self@ == Set::<Seq<char>>::empty()),
    {
        let r = self.names.len() == 0;
        proof {
            if r {
                assert(self@ =~= Set::<Seq<char>>::empty());
            } else {
                assert(self@.contains(self.listed()[0]));
            }
        }
        r
    }

    /// The number of names in the set.
    pub fn len(&self) -> (n: usize)
        ensures
            n == self@.len(),
            n == self.listed().len(),
    {
        proof {
            use_type_invariant(self);
            self.listed().unique_seq_to_set();
        }
        self.names.len()
    }

    /// The names, each once.
    pub fn to_vec(&self) -> (r: &Vec<String>)
        ensures
            texts(r@) == self.listed(),
            texts(r@).no_duplicates(),
            texts(r@).to_set() == self@,
    {
        proof {
            use_type_invariant(self);
        }
        &self.names
    }
}

impl Default for NameSet {
    fn default() -> (s: NameSet)
        ensures
            s@ == Set::<Seq<char>>::empty(),
    {
        NameSet::new()
    }
}

impl Clone for NameSet {
    fn clone(&self) -> (r: NameSet)
        ensures
            r@ == self@,
            r.listed() == self.listed(),
    {
        proof {
            use_type_invariant(self);
        }
        let mut names: Vec<String> = Vec::new();
        for i in 0..self.names.len()
            invariant
                names@.len() == i,
                forall|j: int| 0 <= j < i ==> (#[trigger] names@[j])@ == self.names@[j]@,
        {
            names.push(self.names[i].clone());
        }
        assert(texts(names@) =~= texts(self.names@));
        NameSet { names }
    }
}

/// Each string comes before those behind it.
pub open spec fn ascending(names: Seq<Seq<char>>) -> bool {
    forall|i: int, j: int|
        0 <= i < j < names.len() ==> lex_less(#[trigger] names[i], #[trigger] names[j])
}

/// The same strings, in ascending order.
pub fn sorted_names(names: Vec<String>) -> (r: Vec<String>)
    requires
        texts(names@).no_duplicates(),
    ensures
        ascending(texts(r@)),
        texts(r@).to_set() == texts(names@).to_set(),
{
    let ghost all = texts(names@);
    let mut out: Vec<String> = Vec::new();
    assert(texts(out@).to_set() =~= all.take(0).to_set());
    for name in it: names
        invariant
            texts(it.seq()) == all,
            all.no_duplicates(),
            ascending(texts(out@)),
            texts(out@).to_set() == all.take(it.index() as int).to_set(),
    {
        let ghost n = it.index() as int;
        let ghost before = texts(out@);
        assert(all[n] == name@);
        let mut p: usize = 0;
        while p < out.len() && !text_less(name.as_str(), out[p].as_str())
            invariant
                before == texts(out@),
                p <= out.len(),
                forall|i: int| 0 <= i < p ==> !lex_less(name@, #[trigger] before[i]),
            decreases out.len() - p,
        {
            assert(before[p as int] == out@[p as int]@);
            p = p + 1;
        }
        assert(p < before.len() ==> lex_less(name@, before[p as int]));
        out.insert(p, name);
        let ghost after = texts(out@);
        proof {
            assert(after =~= before.insert(p as int, name@));
            assert forall|i: int| 0 <= i < before.len() implies #[trigger] before[i] != name@ by {
                assert(before.to_set().contains(before[i]));
                let j = choose|j: int| 0 <= j < n && all.take(n)[j] == before[i];
                assert(all[j] != all[n]);
            }
            assert forall|i: int, j: int| 0 <= i < j < after.len() implies lex_less(
                #[trigger] after[i],
                #[trigger] after[j],
            ) by {
                if j < p {
                    assert(lex_less(before[i], before[j]));
                } else if j == p {
                    lex_less_total(before[i], name@);
                } else if i == p {
                    if j - 1 > p {
                        assert(lex_less(before[p as int], before[j - 1]));
                        lex_less_transitive(name@, before[p as int], before[j - 1]);
                    }
                } else if i < p {
                    assert(lex_less(before[i], before[j - 1]));
                } else {
                    assert(lex_less(before[i - 1], before[j - 1]));
                }
            }
            assert(after.to_set() =~= all.take(n + 1).to_set()) by {
                assert forall|x: Seq<char>| #[trigger] after.to_set().contains(
                    x,
                ) implies all.take(n + 1).to_set().contains(x) by {
                    let j = choose|j: int| 0 <= j < after.len() && after[j] == x;
                    if j == p {
                        assert(all.take(n + 1)[n] == x);
                    } else {
                        let k = if j < p {
                            j
                        } else {
                            j - 1
                        };
                        assert(before[k] == x);
                        assert(before.to_set().contains(x));
                        let m = choose|m: int| 0 <= m < n && all.take(n)[m] == x;
                        assert(all.take(n + 1)[m] == x);
                    }
                }
                assert forall|x: Seq<char>| #[trigger] all.take(n + 1).to_set().contains(
                    x,
                ) implies after.to_set().contains(x) by {
                    let head = all.take(n + 1);
                    let m = choose|m: int| 0 <= m < head.len() && head[m] == x;
                    if m == n {
                        assert(after[p as int] == x);
                    } else {
                        assert(all.take(n)[m] == x);
                        assert(before.to_set().contains(x));
                        let k = choose|k: int| 0 <= k < before.len() && before[k] == x;
                        if k < p {
                            assert(after[k] == x);
                        } else {
                            assert(after[k + 1] == x);
                        }
                    }
                }
            }
        }
    }
    assert(all.take(all.len() as int) =~= all);
    out
}

/// Names are in ascending order exactly if each comes before the next ones.
pub proof fn names_ascend(names: Seq<Seq<char>>, name: Seq<char>, i: int, j: int)
    ensures
        ascending(Seq::empty()),
        ascending(names) && 0 <= i < j < names.len() ==> lex_less(names[i], names[j]),
        ascending(names.push(name)) <==> ascending(names) && (forall|k: int|
            0 <= k < names.len() ==> lex_less(#[trigger] names[k], name)),
{
    let more = names.push(name);
    assert(forall|k: int| 0 <= k < names.len() ==> #[trigger] more[k] == names[k]);
    assert(more[names.len() as int] == name);
    if ascending(more) {
        assert forall|a: int, b: int| 0 <= a < b < names.len() implies lex_less(
            #[trigger] names[a],
            #[trigger] names[b],
        ) by {
            assert(lex_less(more[a], more[b]));
        }
        assert forall|k: int| 0 <= k < names.len() implies lex_less(#[trigger] names[k], name) by {
            assert(lex_less(more[k], more[names.len() as int]));
        }
    }
    if ascending(names) && (forall|k: int|
        0 <= k < names.len() ==> lex_less(#[trigger] names[k], name)) {
        assert forall|a: int, b: int| 0 <= a < b < more.len() implies lex_less(
            #[trigger] more[a],
            #[trigger] more[b],
        ) by {
            assert(more[a] == names[a]);
        }
    }
}

} // verus!
