//! A small map from names to values, kept in the order of arrival.

use crate::text::same_text;
use vstd::prelude::*;

verus! {

/// Whether no name occurs twice among `entries`.
pub open spec fn distinct<T>(entries: Seq<(Seq<char>, T)>) -> bool {
    forall|i: int, j: int|
        0 <= i < entries.len() && 0 <= j < entries.len() && i != j ==> entries[i].0
            != entries[j].0
}

/// Whether `name` occurs among `entries`.
pub open spec fn names<T>(entries: Seq<(Seq<char>, T)>, name: Seq<char>) -> bool {
    exists|i: int| 0 <= i < entries.len() && entries[i].0 == name
}

/// A place of `name` among `entries`.
pub open spec fn place<T>(entries: Seq<(Seq<char>, T)>, name: Seq<char>) -> int {
    choose|i: int| 0 <= i < entries.len() && entries[i].0 == name
}

/// The map that `entries` spell out: each name with the value beside it.
pub open spec fn as_map<T>(entries: Seq<(Seq<char>, T)>) -> Map<Seq<char>, T> {
    Map::new(|name: Seq<char>| names(entries, name), |name: Seq<char>| entries[place(entries, name)].1)
}

/// The map that `entries` build up when each is inserted in turn, a later
/// entry replacing an earlier one of the same name.
pub open spec fn collected<T>(entries: Seq<(Seq<char>, T)>) -> Map<Seq<char>, T>
    decreases entries.len(),
{
    if entries.len() == 0 {
        Map::empty()
    } else {
        collected(entries.drop_last()).insert(entries.last().0, entries.last().1)
    }
}

/// The value under `name` in `map`, if any.
pub open spec fn lookup<T>(map: Map<Seq<char>, T>, name: Seq<char>) -> Option<T> {
    if map.contains_key(name) {
        Some(map[name])
    } else {
        None
    }
}

/// Among distinct entries, each name maps to the value beside it.
pub proof fn lemma_as_map_at<T>(entries: Seq<(Seq<char>, T)>, i: int)
    requires
        distinct(entries),
        0 <= i < entries.len(),
    ensures
        as_map(entries).contains_key(entries[i].0),
        as_map(entries)[entries[i].0] == entries[i].1,
        place(entries, entries[i].0) == i,
{
    assert(names(entries, entries[i].0));
}

/// A name that is not yet there, added at the end, is an insertion.
pub proof fn lemma_as_map_push<T>(entries: Seq<(Seq<char>, T)>, name: Seq<char>, value: T)
    requires
        distinct(entries),
        !names(entries, name),
    ensures
        distinct(entries.push((name, value))),
        as_map(entries.push((name, value))) == as_map(entries).insert(name, value),
{
    let after = entries.push((name, value));
    assert(distinct(after)) by {
        assert forall|i: int, j: int|
            0 <= i < after.len() && 0 <= j < after.len() && i != j implies after[i].0
            != after[j].0 by {
            if i < entries.len() && j < entries.len() {
                assert(after[i] == entries[i] && after[j] == entries[j]);
            } else if i < entries.len() {
                assert(after[i] == entries[i]);
            } else {
                assert(after[j] == entries[j]);
            }
        }
    }
    assert forall|k: Seq<char>| names(after, k) == (k == name || names(entries, k)) by {
        if names(after, k) {
            let i = place(after, k);
            if i < entries.len() {
                assert(entries[i].0 == k);
            }
        }
        if names(entries, k) {
            let i = place(entries, k);
            assert(after[i].0 == k);
        }
        if k == name {
            assert(after[entries.len() as int].0 == k);
        }
    }
    assert forall|k: Seq<char>| names(after, k) implies #[trigger] as_map(after)[k] == as_map(
        entries,
    ).insert(name, value)[k] by {
        let i = place(after, k);
        lemma_as_map_at(after, i);
        if k != name {
            let j = place(entries, k);
            assert(after[j] == entries[j]);
            lemma_as_map_at(after, j);
        } else {
            lemma_as_map_at(after, entries.len() as int);
        }
    }
    assert(as_map(after) =~= as_map(entries).insert(name, value));
}

/// Replacing the value beside a name is an insertion under that name.
pub proof fn lemma_as_map_update<T>(entries: Seq<(Seq<char>, T)>, i: int, value: T)
    requires
        distinct(entries),
        0 <= i < entries.len(),
    ensures
        distinct(entries.update(i, (entries[i].0, value))),
        as_map(entries.update(i, (entries[i].0, value))) == as_map(entries).insert(
            entries[i].0,
            value,
        ),
{
    let name = entries[i].0;
    let after = entries.update(i, (name, value));
    assert(distinct(after)) by {
        assert forall|a: int, b: int|
            0 <= a < after.len() && 0 <= b < after.len() && a != b implies after[a].0
            != after[b].0 by {
            assert(after[a].0 == entries[a].0 && after[b].0 == entries[b].0);
        }
    }
    assert forall|k: Seq<char>| names(after, k) == names(entries, k) by {
        if names(after, k) {
            let a = place(after, k);
            assert(entries[a].0 == k);
        }
        if names(entries, k) {
            let a = place(entries, k);
            assert(after[a].0 == k);
        }
    }
    lemma_as_map_at(entries, i);
    assert forall|k: Seq<char>| names(after, k) implies #[trigger] as_map(after)[k] == as_map(
        entries,
    ).insert(name, value)[k] by {
        let a = place(after, k);
        lemma_as_map_at(after, a);
        if k != name {
            let b = place(entries, k);
            lemma_as_map_at(entries, b);
            assert(after[b] == entries[b]);
            lemma_as_map_at(after, b);
        } else {
            lemma_as_map_at(after, i);
        }
    }
    assert(as_map(after) =~= as_map(entries).insert(name, value));
}

/// Taking an entry out removes its name.
pub proof fn lemma_as_map_remove<T>(entries: Seq<(Seq<char>, T)>, i: int)
    requires
        distinct(entries),
        0 <= i < entries.len(),
    ensures
        distinct(entries.remove(i)),
        as_map(entries.remove(i)) == as_map(entries).remove(entries[i].0),
{
    let name = entries[i].0;
    let after = entries.remove(i);
    assert(distinct(after)) by {
        assert forall|a: int, b: int|
            0 <= a < after.len() && 0 <= b < after.len() && a != b implies after[a].0
            != after[b].0 by {
            let a0 = if a < i { a } else { a + 1 };
            let b0 = if b < i { b } else { b + 1 };
            assert(after[a] == entries[a0] && after[b] == entries[b0]);
        }
    }
    assert forall|k: Seq<char>| names(after, k) == (k != name && names(entries, k)) by {
        if names(after, k) {
            let a = place(after, k);
            let a0 = if a < i { a } else { a + 1 };
            assert(entries[a0].0 == k);
            assert(a0 != i);
        }
        if k != name && names(entries, k) {
            let b = place(entries, k);
            let b1 = if b < i { b } else { b - 1 };
            assert(after[b1].0 == k);
        }
    }
    assert forall|k: Seq<char>| names(after, k) implies #[trigger] as_map(after)[k] == as_map(
        entries,
    ).remove(name)[k] by {
        let a = place(after, k);
        lemma_as_map_at(after, a);
        let a0 = if a < i { a } else { a + 1 };
        assert(after[a] == entries[a0]);
        lemma_as_map_at(entries, a0);
    }
    assert(as_map(after) =~= as_map(entries).remove(name));
}

/// Distinct entries build up the map that they spell out.
pub proof fn lemma_collected_distinct<T>(entries: Seq<(Seq<char>, T)>)
    requires
        distinct(entries),
    ensures
        collected(entries) == as_map(entries),
    decreases entries.len(),
{
    if entries.len() == 0 {
        assert(as_map(entries) =~= Map::<Seq<char>, T>::empty());
    } else {
        let front = entries.drop_last();
        let last = entries.last();
        assert(distinct(front)) by {
            assert forall|i: int, j: int|
                0 <= i < front.len() && 0 <= j < front.len() && i != j implies front[i].0
                != front[j].0 by {
                assert(front[i] == entries[i] && front[j] == entries[j]);
            }
        }
        assert(!names(front, last.0)) by {
            if names(front, last.0) {
                let i = place(front, last.0);
                assert(front[i] == entries[i]);
                assert(entries[entries.len() - 1].0 == last.0);
            }
        }
        lemma_collected_distinct(front);
        lemma_as_map_push(front, last.0, last.1);
        assert(front.push((last.0, last.1)) =~= entries);
    }
}

/// A map from names to values. No name occurs twice; the entries keep the
/// order in which their names first arrived.
#[derive(Debug)]
pub struct Registry<V> {
    entries: Vec<(String, V)>,
}

impl<V> Registry<V> {
    /// The entries in order, each name as text.
    pub closed spec fn entries(&self) -> Seq<(Seq<char>, V)> {
        Seq::new(self.entries@.len(), |i: int| (self.entries@[i].0@, self.entries@[i].1))
    }

    /// No name occurs twice.
    pub open spec fn wf(&self) -> bool {
        distinct(self.entries())
    }

    /// The map from each name to its value.
    pub open spec fn map(&self) -> Map<Seq<char>, V> {
        as_map(self.entries())
    }

    pub fn new() -> (registry: Self)
        ensures
            registry.wf(),
            registry.entries() == Seq::<(Seq<char>, V)>::empty(),
            registry.map() == Map::<Seq<char>, V>::empty(),
    {
        let registry = Registry { entries: Vec::new() };
        assert(registry.entries() =~= Seq::<(Seq<char>, V)>::empty());
        assert(registry.map() =~= Map::<Seq<char>, V>::empty());
        registry
    }

    pub fn len(&self) -> (n: usize)
        ensures
            n == self.entries().len(),
    {
        self.entries.len()
    }

    /// The name of the entry at `i`.
    pub fn name_at(&self, i: usize) -> (name: &str)
        requires
            i < self.entries().len(),
        ensures
            name@ == self.entries()[i as int].0,
    {
        self.entries[i].0.as_str()
    }

    /// The value of the entry at `i`.
    pub fn value_at(&self, i: usize) -> (value: &V)
        requires
            i < self.entries().len(),
        ensures
            *value == self.entries()[i as int].1,
    {
        &self.entries[i].1
    }

    /// Where `name` stands among the entries.
    pub fn position(&self, name: &str) -> (at: Option<usize>)
        ensures
            match at {
                Some(i) => i < self.entries().len() && self.entries()[i as int].0 == name@,
                None => !names(self.entries(), name@),
            },
    {
        let mut i: usize = 0;
        while i < self.entries.len()
            invariant
                i <= self.entries.len(),
                forall|j: int| 0 <= j < i ==> self.entries()[j].0 != name@,
            decreases self.entries.len() - i,
        {
            if same_text(self.entries[i].0.as_str(), name) {
                return Some(i);
            }
            i += 1;
        }
        None
    }

    /// The value under `name`.
    pub fn get(&self, name: &str) -> (value: Option<&V>)
        requires
            self.wf(),
        ensures
            match value {
                Some(v) => self.map().contains_key(name@) && self.map()[name@] == *v,
                None => !self.map().contains_key(name@),
            },
    {
        match self.position(name) {
            Some(i) => {
                proof {
                    lemma_as_map_at(self.entries(), i as int);
                }
                Some(&self.entries[i].1)
            },
            None => None,
        }
    }

    /// Puts `value` under `name` and hands back the value that was there.
    pub fn insert(&mut self, name: String, value: V) -> (displaced: Option<V>)
        requires
            old(self).wf(),
        ensures
            final(self).wf(),
            final(self).map() == old(self).map().insert(name@, value),
            displaced == lookup(old(self).map(), name@),
            final(self).entries() == match displaced {
                Some(_) => old(self).entries().update(
                    place(old(self).entries(), name@),
                    (name@, value),
                ),
                None => old(self).entries().push((name@, value)),
            },
    {
        let ghost before = self.entries();
        match self.position(name.as_str()) {
            Some(i) => {
                proof {
                    lemma_as_map_at(before, i as int);
                    lemma_as_map_update(before, i as int, value);
                }
                let (_, was) = self.entries.remove(i);
                self.entries.insert(i, (name, value));
                assert(self.entries() =~= before.update(i as int, (name@, value)));
                Some(was)
            },
            None => {
                proof {
                    lemma_as_map_push(before, name@, value);
                }
                self.entries.push((name, value));
                assert(self.entries() =~= before.push((name@, value)));
                None
            },
        }
    }

    /// Takes `name` out and hands back the value that was under it.
    pub fn remove(&mut self, name: &str) -> (removed: Option<V>)
        requires
            old(self).wf(),
        ensures
            final(self).wf(),
            final(self).map() == old(self).map().remove(name@),
            removed == lookup(old(self).map(), name@),
            final(self).entries() == match removed {
                Some(_) => old(self).entries().remove(place(old(self).entries(), name@)),
                None => old(self).entries(),
            },
    {
        let ghost before = self.entries();
        match self.position(name) {
            Some(i) => {
                proof {
                    lemma_as_map_at(before, i as int);
                    lemma_as_map_remove(before, i as int);
                }
                let (_, was) = self.entries.remove(i);
                assert(self.entries() =~= before.remove(i as int));
                Some(was)
            },
            None => {
                assert(self.map().remove(name@) =~= self.map());
                None
            },
        }
    }
}

} // verus!
