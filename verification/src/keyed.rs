//! A map kept as a list of entries, no key twice, with keys told apart by their views.

use vstd::prelude::*;

verus! {

/// A type that can key a [`KeyedMap`]: two keys are the same where their views are.
pub trait Key: View + Sized {
    /// Whether the two keys are the same.
    fn same(&self, other: &Self) -> (same: bool)
        ensures
            same == (self@ == other@),
    ;
}

impl Key for String {
    fn same(&self, other: &Self) -> (same: bool) {
        *self == *other
    }
}

/// A finite map from keys to values.
#[derive(Debug)]
pub struct KeyedMap<K: Key, V> {
    entries: Vec<(K, V)>,
}

/// Whether some entry has the key `key`.
pub open spec fn holds_key<K: Key, V>(entries: Seq<(K, V)>, key: K::V) -> bool {
    exists|i: int| 0 <= i < entries.len() && (#[trigger] entries[i]).0@ == key
}

/// The position of an entry for `key`.
pub open spec fn position_of<K: Key, V>(entries: Seq<(K, V)>, key: K::V) -> int {
    choose|i: int| 0 <= i < entries.len() && (#[trigger] entries[i]).0@ == key
}

/// The map that a list of entries stands for.
pub open spec fn as_map<K: Key, V>(entries: Seq<(K, V)>) -> Map<K::V, V> {
    Map::new(|key: K::V| holds_key(entries, key), |key: K::V| entries[position_of(entries, key)].1)
}

/// No two entries have the same key.
pub open spec fn keys_differ<K: Key, V>(entries: Seq<(K, V)>) -> bool {
    forall|i: int, j: int|
        0 <= i < j < entries.len() ==> (#[trigger] entries[i]).0@ != (#[trigger] entries[j]).0@
}

proof fn lemma_entry<K: Key, V>(entries: Seq<(K, V)>, i: int)
    requires
        keys_differ(entries),
        0 <= i < entries.len(),
    ensures
        as_map(entries).contains_key(entries[i].0@),
        as_map(entries)[entries[i].0@] == entries[i].1,
{
    let key = entries[i].0@;
    let j = position_of(entries, key);
    assert(holds_key(entries, key));
    assert(0 <= j < entries.len() && entries[j].0@ == key);
    assert(i == j) by {
        if i < j {
            assert(entries[i].0@ != entries[j].0@);
        } else if j < i {
            assert(entries[j].0@ != entries[i].0@);
        }
    }
}

impl<K: Key, V> View for KeyedMap<K, V> {
    type V = Map<K::V, V>;

    closed spec fn view(&self) -> Map<K::V, V> {
        as_map(self.entries@)
    }
}

impl<K: Key, V> KeyedMap<K, V> {
    #[verifier::type_invariant]
    spec fn well_formed(self) -> bool {
        keys_differ(self.entries@)
    }

    /// The empty map.
    pub fn new() -> (map: Self)
        ensures
            map@ == Map::<K::V, V>::empty(),
    {
        let map = KeyedMap { entries: Vec::new() };
        assert(map@ =~= Map::<K::V, V>::empty());
        map
    }

    fn position(&self, key: &K) -> (found: Option<usize>)
        ensures
            match found {
                Some(i) => i < self.entries@.len() && self.entries@[i as int].0@ == key@,
                None => !holds_key(self.entries@, key@),
            },
    {
        let mut i: usize = 0;
        while i < self.entries.len()
            invariant
                i <= self.entries@.len(),
                forall|k: int| 0 <= k < i ==> (#[trigger] self.entries@[k]).0@ != key@,
            decreases self.entries@.len() - i,
        {
            if self.entries[i].0.same(key) {
                return Some(i);
            }
            i = i + 1;
        }
        None
    }

    /// The value under `key`, if any.
    pub fn get(&self, key: &K) -> (value: Option<&V>)
        ensures
            match value {
                Some(v) => self@.contains_key(key@) && *v == self@[key@],
                None => !self@.contains_key(key@),
            },
    {
        proof {
            use_type_invariant(self);
        }
        match self.position(key) {
            Some(i) => {
                proof {
                    lemma_entry(self.entries@, i as int);
                }
                Some(&self.entries[i].1)
            },
            None => None,
        }
    }

    /// Whether there is a value under `key`.
    pub fn contains_key(&self, key: &K) -> (found: bool)
        ensures
            found == self@.contains_key(key@),
    {
        self.get(key).is_some()
    }

    /// Takes the value under `key` out of the map.
    pub fn remove(&mut self, key: &K) -> (value: Option<V>)
        ensures
            final(self)@ == old(self)@.remove(key@),
            match value {
                Some(v) => old(self)@.contains_key(key@) && v == old(self)@[key@],
                None => !old(self)@.contains_key(key@),
            },
    {
        proof {
            use_type_invariant(&*self);
        }
        let ghost before = self.entries@;
        match self.position(key) {
            Some(i) => {
                let mut entries: Vec<(K, V)> = Vec::new();
                std::mem::swap(&mut entries, &mut self.entries);
                let (k, v) = entries.remove(i);
                proof {
                    lemma_entry(before, i as int);
                    lemma_removed(before, i as int);
                }
                self.entries = entries;
                Some(v)
            },
            None => {
                assert(self@ =~= old(self)@.remove(key@));
                None
            },
        }
    }

    /// Puts `value` under `key`, and returns the value that was there.
    pub fn insert(&mut self, key: K, value: V) -> (previous: Option<V>)
        ensures
            final(self)@ == old(self)@.insert(key@, value),
            match previous {
                Some(v) => old(self)@.contains_key(key@) && v == old(self)@[key@],
                None => !old(self)@.contains_key(key@),
            },
    {
        let previous = self.remove(&key);
        proof {
            use_type_invariant(&*self);
        }
        let ghost rest = self.entries@;
        let mut entries: Vec<(K, V)> = Vec::new();
        std::mem::swap(&mut entries, &mut self.entries);
        proof {
            assert(!holds_key(rest, key@)) by {
                assert(!as_map(rest).contains_key(key@));
            }
            lemma_appended(rest, (key, value));
        }
        entries.push((key, value));
        self.entries = entries;
        assert(self@ =~= old(self)@.insert(key@, value));
        previous
    }

    /// The entries of the map, each key once.
    pub fn entries(&self) -> (entries: &Vec<(K, V)>)
        ensures
            keys_differ(entries@),
            as_map(entries@) == self@,
    {
        proof {
            use_type_invariant(self);
        }
        &self.entries
    }
}

proof fn lemma_removed<K: Key, V>(entries: Seq<(K, V)>, i: int)
    requires
        keys_differ(entries),
        0 <= i < entries.len(),
    ensures
        keys_differ(entries.remove(i)),
        as_map(entries.remove(i)) == as_map(entries).remove(entries[i].0@),
{
    let rest = entries.remove(i);
    let key = entries[i].0@;
    assert forall|a: int, b: int| 0 <= a < b < rest.len() implies (#[trigger] rest[a]).0@ != (
    #[trigger] rest[b]).0@ by {
        let c = if a < i { a } else { a + 1 };
        let d = if b < i { b } else { b + 1 };
        assert(rest[a] == entries[c] && rest[b] == entries[d]);
    }
    assert forall|k: K::V| holds_key(rest, k) <==> (holds_key(entries, k) && k != key) by {
        if holds_key(rest, k) {
            let a = position_of(rest, k);
            let c = if a < i { a } else { a + 1 };
            assert(rest[a] == entries[c]);
            if c < i {
                assert(entries[c].0@ != entries[i].0@);
            } else {
                assert(entries[i].0@ != entries[c].0@);
            }
        }
        if holds_key(entries, k) && k != key {
            let c = position_of(entries, k);
            let a = if c < i { c } else { c - 1 };
            assert(rest[a] == entries[c]);
        }
    }
    assert forall|k: K::V| holds_key(rest, k) implies as_map(rest)[k] == as_map(entries)[k] by {
        let a = position_of(rest, k);
        let c = if a < i { a } else { a + 1 };
        assert(rest[a] == entries[c]);
        lemma_entry(entries, c);
        lemma_entry(rest, a);
    }
    assert(as_map(rest) =~= as_map(entries).remove(key));
}

proof fn lemma_appended<K: Key, V>(entries: Seq<(K, V)>, entry: (K, V))
    requires
        keys_differ(entries),
        !holds_key(entries, entry.0@),
    ensures
        keys_differ(entries.push(entry)),
        as_map(entries.push(entry)) == as_map(entries).insert(entry.0@, entry.1),
{
    let more = entries.push(entry);
    assert(keys_differ(more)) by {
        assert forall|a: int, b: int| 0 <= a < b < more.len() implies (#[trigger] more[a]).0@ != (
        #[trigger] more[b]).0@ by {
            assert(more[a] == entries[a]);
            if b < entries.len() {
                assert(more[b] == entries[b]);
            }
        }
    }
    assert forall|k: K::V| holds_key(more, k) <==> (holds_key(entries, k) || k == entry.0@) by {
        if holds_key(more, k) && k != entry.0@ {
            let a = position_of(more, k);
            assert(more[a] == entries[a]);
        }
        if holds_key(entries, k) {
            let a = position_of(entries, k);
            assert(more[a] == entries[a]);
        }
        assert(more[entries.len() as int] == entry);
    }
    assert forall|k: K::V| holds_key(more, k) implies as_map(more)[k] == as_map(entries).insert(
        entry.0@,
        entry.1,
    )[k] by {
        let a = position_of(more, k);
        lemma_entry(more, a);
        if a < entries.len() {
            assert(more[a] == entries[a]);
            lemma_entry(entries, a);
        }
    }
    assert(as_map(more) =~= as_map(entries).insert(entry.0@, entry.1));
}

/// The entries of a map are the map: each entry gives its key its value, each key has one entry, and
/// no key has two.
pub proof fn law_entries_are_the_map<K: Key, V>(
    map: &KeyedMap<K, V>,
    entries: &Vec<(K, V)>,
    key: K::V,
)
    requires
        call_ensures(KeyedMap::<K, V>::entries, (map,), entries),
    ensures
        map@.contains_key(key) <==> exists|i: int|
            0 <= i < entries@.len() && (#[trigger] entries@[i]).0@ == key,
        forall|i: int|
            0 <= i < entries@.len() && (#[trigger] entries@[i]).0@ == key ==> map@[key]
                == entries@[i].1,
        forall|i: int, j: int|
            0 <= i < j < entries@.len() ==> (#[trigger] entries@[i]).0@ != (
            #[trigger] entries@[j]).0@,
{
    assert forall|i: int| 0 <= i < entries@.len() && (#[trigger] entries@[i]).0@ == key implies map@[
        key
    ] == entries@[i].1 by {
        lemma_entry(entries@, i);
    }
}

} // verus!
