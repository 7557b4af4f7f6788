//! A table from names to values that keeps its entries in the order in
//! which their names came in.

use vstd::prelude::*;
use crate::text::same_str;

verus! {

/// A table from names to values. The value of a name is that of the first
/// entry with the name; `insert` never adds a second one.
#[derive(Debug, PartialEq)]
pub struct Table<V> {
    entries: Vec<(String, V)>,
}

/// The place of the first entry with the name; the number of entries if there is none.
pub open spec fn first_place<V>(entries: Seq<(Seq<char>, V)>, name: Seq<char>) -> int
    decreases entries.len(),
{
    if entries.len() == 0 {
        0
    } else if entries[0].0 == name {
        0
    } else {
        1 + first_place(entries.drop_first(), name)
    }
}

/// [`first_place`] is a place of the name, and the first one.
pub proof fn lemma_first_place<V>(entries: Seq<(Seq<char>, V)>, name: Seq<char>)
    ensures
        0 <= first_place(entries, name) <= entries.len(),
        first_place(entries, name) < entries.len() ==> entries[first_place(entries, name)].0
            == name,
        forall|i: int| 0 <= i < first_place(entries, name) ==> (#[trigger] entries[i]).0 != name,
    decreases entries.len(),
{
    if entries.len() > 0 && entries[0].0 != name {
        let rest = entries.drop_first();
        lemma_first_place(rest, name);
        let p = first_place(rest, name);
        assert forall|i: int| 0 <= i < first_place(entries, name) implies (#[trigger] entries[i]).0
            != name by {
            if i > 0 {
                assert(entries[i] == rest[i - 1]);
            }
        }
        if p < rest.len() {
            assert(entries[p + 1] == rest[p]);
        }
    }
}

/// A place that holds the name, with no such place before it, is the first place.
pub proof fn lemma_first_place_is<V>(entries: Seq<(Seq<char>, V)>, name: Seq<char>, at: int)
    requires
        0 <= at <= entries.len(),
        at < entries.len() ==> entries[at].0 == name,
        forall|i: int| 0 <= i < at ==> (#[trigger] entries[i]).0 != name,
    ensures
        first_place(entries, name) == at,
{
    lemma_first_place(entries, name);
    let p = first_place(entries, name);
    if p < at {
        assert(entries[p].0 != name);
    }
}

/// The entries as a map: each name with the value of its first entry.
pub open spec fn entries_map<V>(entries: Seq<(Seq<char>, V)>) -> Map<Seq<char>, V> {
    Map::new(
        |name: Seq<char>| first_place(entries, name) < entries.len(),
        |name: Seq<char>| entries[first_place(entries, name)].1,
    )
}

impl<V> Table<V> {
    /// The entries of the table, in the order in which their names came in.
    pub closed spec fn entries(&self) -> Seq<(Seq<char>, V)> {
        Seq::new(self.entries.len() as nat, |i: int| (self.entries[i].0@, self.entries[i].1))
    }

    /// Whether the table holds `name`.
    pub open spec fn has(&self, name: Seq<char>) -> bool {
        first_place(self.entries(), name) < self.entries().len()
    }

    /// The value of `name`, for a name that the table holds.
    pub open spec fn value_of(&self, name: Seq<char>) -> V {
        self.entries()[first_place(self.entries(), name)].1
    }

    /// A table without entries.
    pub fn new() -> (r: Self)
        ensures
            r.entries() == Seq::<(Seq<char>, V)>::empty(),
            r@ == Map::<Seq<char>, V>::empty(),
    {
        let r = Table { entries: Vec::new() };
        assert(r.entries() =~= Seq::<(Seq<char>, V)>::empty());
        assert(r@ =~= Map::<Seq<char>, V>::empty());
        r
    }

    /// The number of entries.
    pub fn len(&self) -> (n: usize)
        ensures
            n == self.entries().len(),
    {
        self.entries.len()
    }

    /// The place of the first entry with the name.
    pub fn find(&self, name: &str) -> (r: Option<usize>)
        ensures
            match r {
                Some(i) => self.has(name@) && i == first_place(self.entries(), name@),
                None => !self.has(name@),
            },
    {
        let mut i: usize = 0;
        while i < self.entries.len()
            invariant
                i <= self.entries.len(),
                forall|k: int| 0 <= k < i ==> (#[trigger] self.entries()[k]).0 != name@,
            decreases self.entries.len() - i,
        {
            if same_str(self.entries[i].0.as_str(), name) {
                proof {
                    assert(self.entries()[i as int].0 == name@);
                    lemma_first_place_is(self.entries(), name@, i as int);
                }
                return Some(i);
            }
            i += 1;
        }
        proof {
            lemma_first_place_is(self.entries(), name@, self.entries().len() as int);
        }
        None
    }

    /// Whether the table holds `name`.
    pub fn contains_key(&self, name: &str) -> (r: bool)
        ensures
            r == self.has(name@),
            r == self@.contains_key(name@),
    {
        self.find(name).is_some()
    }

    /// The value of `name`.
    pub fn get(&self, name: &str) -> (r: Option<&V>)
        ensures
            match r {
                Some(v) => self@.contains_key(name@) && *v == self@[name@],
                None => !self@.contains_key(name@),
            },
    {
        match self.find(name) {
            Some(i) => {
                proof {
                    lemma_first_place(self.entries(), name@);
                }
                Some(&self.entries[i].1)
            },
            None => None,
        }
    }

    /// The name of the entry at place `i`.
    pub fn name_at(&self, i: usize) -> (r: &str)
        requires
            i < self.entries().len(),
        ensures
            r@ == self.entries()[i as int].0,
    {
        self.entries[i].0.as_str()
    }

    /// The value of the entry at place `i`.
    pub fn value_at(&self, i: usize) -> (r: &V)
        requires
            i < self.entries().len(),
        ensures
            *r == self.entries()[i as int].1,
    {
        &self.entries[i].1
    }

    /// The value of the entry at place `i`, to be changed in place.
    pub fn value_at_mut(&mut self, i: usize) -> (r: &mut V)
        requires
            i < old(self).entries().len(),
        ensures
            *r == old(self).entries()[i as int].1,
            final(self).entries() == old(self).entries().update(
                i as int,
                (old(self).entries()[i as int].0, *final(r)),
            ),
    {
        &mut self.entries[i].1
    }

    /// Gives `name` the value `value`: in the place of its first entry if
    /// the table holds the name, as a new last entry if not.
    pub fn insert(&mut self, name: String, value: V)
        ensures
            old(self).has(name@) ==> final(self).entries() == old(self).entries().update(
                first_place(old(self).entries(), name@),
                (name@, value),
            ),
            !old(self).has(name@) ==> final(self).entries() == old(self).entries().push(
                (name@, value),
            ),
            final(self)@ == old(self)@.insert(name@, value),
    {
        let ghost before = self.entries();
        proof {
            lemma_entry_set(before, name@, value);
        }
        match self.find(name.as_str()) {
            Some(i) => {
                self.entries.set(i, (name, value));
                assert(self.entries() =~= before.update(i as int, (name@, value)));
            },
            None => {
                self.entries.push((name, value));
                assert(self.entries() =~= before.push((name@, value)));
            },
        }
    }

    /// The value of `name`, to be changed in place.
    pub fn get_mut(&mut self, name: &str) -> (r: Option<&mut V>)
        ensures
            match r {
                Some(v) => old(self)@.contains_key(name@) && *v == old(self)@[name@] && final(self).entries() == old(self).entries().update(
                    first_place(old(self).entries(), name@),
                    (name@, *final(v)),
                ) && final(self)@ == old(self)@.insert(name@, *final(v)),
                None => !old(self)@.contains_key(name@) && *final(self) == *old(self),
            },
    {
        let ghost before = self.entries();
        match self.find(name) {
            Some(i) => {
                proof {
                    lemma_first_place(before, name@);
                    assert forall|value: V|
                        entries_map(
                            #[trigger] before.update(first_place(before, name@), (name@, value)),
                        ) == entries_map(before).insert(name@, value) by {
                        lemma_entry_set(before, name@, value);
                    }
                }
                assert(self.entries[i as int].0@ == name@);
                Some(&mut self.entries[i].1)
            },
            None => None,
        }
    }
}

/// The map of the entries after `name` got `value`: in the place of its first
/// entry, or in a new last entry when it had none.
pub proof fn lemma_entry_set<V>(before: Seq<(Seq<char>, V)>, name: Seq<char>, value: V)
    ensures
        first_place(before, name) < before.len() ==> entries_map(
            before.update(first_place(before, name), (name, value)),
        ) == entries_map(before).insert(name, value),
        first_place(before, name) >= before.len() ==> entries_map(before.push((name, value)))
            == entries_map(before).insert(name, value),
{
    lemma_first_place(before, name);
    let place = first_place(before, name);
    let after = if place < before.len() {
        before.update(place, (name, value))
    } else {
        before.push((name, value))
    };
    assert forall|k: Seq<char>| true implies (#[trigger] first_place(after, k) < after.len()) == (k
        == name || first_place(before, k) < before.len()) && (first_place(after, k) < after.len()
        ==> after[first_place(after, k)].1 == (if k == name {
        value
    } else {
        before[first_place(before, k)].1
    })) by {
        lemma_first_place(before, k);
        let was = first_place(before, k);
        if k == name {
            assert forall|i: int| 0 <= i < place implies (#[trigger] after[i]).0 != k by {
                assert(after[i] == before[i]);
            }
            lemma_first_place_is(after, k, place);
        } else {
            assert forall|i: int| 0 <= i < was implies (#[trigger] after[i]).0 != k by {
                assert(before[i].0 != k);
            }
            if was < before.len() {
                assert(after[was].0 == k);
                lemma_first_place_is(after, k, was);
            } else {
                assert forall|i: int| 0 <= i < after.len() implies (#[trigger] after[i]).0 != k by {
                    if i < before.len() {
                        assert(before[i].0 != k);
                    }
                }
                lemma_first_place_is(after, k, after.len() as int);
            }
        }
    }
    assert(entries_map(after) =~= entries_map(before).insert(name, value));
}

impl<V: Clone> Clone for Table<V> {
    /// A table with the same names in the same order, each with a clone of its value.
    fn clone(&self) -> (r: Self)
        ensures
            r.entries().len() == self.entries().len(),
            forall|i: int|
                0 <= i < self.entries().len() ==> (#[trigger] r.entries()[i]).0
                    == self.entries()[i].0 && cloned(self.entries()[i].1, r.entries()[i].1),
    {
        let mut entries: Vec<(String, V)> = Vec::new();
        let mut i: usize = 0;
        while i < self.entries.len()
            invariant
                i <= self.entries.len(),
                entries.len() == i,
                forall|k: int|
                    0 <= k < i ==> (#[trigger] entries[k]).0@ == self.entries[k].0@ && cloned(
                        self.entries[k].1,
                        entries[k].1,
                    ),
            decreases self.entries.len() - i,
        {
            entries.push((self.entries[i].0.clone(), self.entries[i].1.clone()));
            i += 1;
        }
        Table { entries }
    }
}

impl<V> View for Table<V> {
    type V = Map<Seq<char>, V>;

    open spec fn view(&self) -> Map<Seq<char>, V> {
        entries_map(self.entries())
    }
}

} // verus!
