//! A map from text keys to values that remembers its keys, so that what it
//! holds can be walked in the order in which it came.

use vstd::hash_map::StringHashMap;
use vstd::prelude::*;

verus! {

/// A map from text keys to values. A key that is inserted again keeps its
/// place and takes the new value.
#[verifier::reject_recursive_types(V)]
pub struct KeyedMap<V> {
    values: StringHashMap<V>,
    keys: Vec<String>,
}

impl<V> View for KeyedMap<V> {
    type V = Map<Seq<char>, V>;

    closed spec fn view(&self) -> Map<Seq<char>, V> {
        self.values@
    }
}

impl<V> KeyedMap<V> {
    /// The keys of the map, each once, in the order of their first
    /// insertion.
    pub closed spec fn spec_keys(&self) -> Seq<Seq<char>> {
        Seq::new(self.keys@.len(), |at: int| self.keys@[at]@)
    }

    /// Whether the remembered keys are the keys of the map, each once.
    pub closed spec fn wf(&self) -> bool {
        &&& forall|at: int| 0 <= at < self.keys@.len() ==> self.values@.contains_key(self.keys@[at]@)
        &&& forall|first: int, second: int|
            0 <= first < second < self.keys@.len() ==> self.keys@[first]@ != self.keys@[second]@
        &&& forall|key: Seq<char>|
            self.values@.contains_key(key) ==> exists|at: int|
                0 <= at < self.keys@.len() && self.keys@[at]@ == key
    }

    /// The remembered keys are the keys of the map, each once.
    pub proof fn lemma_keys(&self)
        requires
            self.wf(),
        ensures
            self.spec_keys().no_duplicates(),
            forall|key: Seq<char>| self@.contains_key(key) <==> self.spec_keys().contains(key),
    {
        let keys = self.spec_keys();
        assert forall|key: Seq<char>| self@.contains_key(key) implies keys.contains(key) by {
            let at = choose|at: int| 0 <= at < self.keys@.len() && self.keys@[at]@ == key;
            assert(keys[at] == key);
        }
    }

    /// A map that holds nothing.
    pub fn new() -> (map: KeyedMap<V>)
        ensures
            map.wf(),
            map@ == Map::<Seq<char>, V>::empty(),
            map.spec_keys() == Seq::<Seq<char>>::empty(),
    {
        let map = KeyedMap { values: StringHashMap::new(), keys: Vec::new() };
        assert(map.spec_keys() =~= Seq::<Seq<char>>::empty());
        map
    }

    /// Puts `value` under `key`, in place of what was there before. A new
    /// key is remembered after the keys that are there.
    pub fn insert(&mut self, key: String, value: V)
        requires
            old(self).wf(),
        ensures
            final(self).wf(),
            final(self)@ == old(self)@.insert(key@, value),
            final(self).spec_keys() == if old(self)@.contains_key(key@) {
                old(self).spec_keys()
            } else {
                old(self).spec_keys().push(key@)
            },
    {
        let ghost before = self.spec_keys();
        let known = self.values.contains_key(key.as_str());
        if !known {
            self.keys.push(key.clone());
        }
        self.values.insert(key, value);
        proof {
            if known {
                assert(self.spec_keys() =~= before);
            } else {
                assert(self.spec_keys() =~= before.push(key@));
            }
            assert forall|other: Seq<char>| self.values@.contains_key(other) implies exists|at: int|
                0 <= at < self.keys@.len() && self.keys@[at]@ == other by {
                if other == key@ && !known {
                    assert(self.keys@[self.keys@.len() - 1]@ == other);
                } else {
                    let at = choose|at: int|
                        0 <= at < old(self).keys@.len() && old(self).keys@[at]@ == other;
                    assert(self.keys@[at]@ == other);
                }
            }
        }
    }

    /// The number of keys.
    pub fn len(&self) -> (len: usize)
        requires
            self.wf(),
        ensures
            len == self@.len(),
            len == self.spec_keys().len(),
    {
        proof {
            self.lemma_keys();
            let keys = self.spec_keys();
            keys.unique_seq_to_set();
            assert(keys.to_set() =~= self@.dom());
        }
        self.keys.len()
    }

    /// Whether the map holds a value under `key`.
    pub fn contains_key(&self, key: &str) -> (found: bool)
        ensures
            found == self@.contains_key(key@),
    {
        self.values.contains_key(key)
    }

    /// The value under `key`, if the map holds one.
    pub fn get<'a>(&'a self, key: &str) -> (value: Option<&'a V>)
        ensures
            match value {
                Some(found) => self@.contains_key(key@) && *found == self@[key@],
                None => !self@.contains_key(key@),
            },
    {
        self.values.get(key)
    }

    /// The key at position `at` in the order of first insertion, if there
    /// are that many keys.
    pub fn key_at<'a>(&'a self, at: usize) -> (key: Option<&'a String>)
        ensures
            key is Some <==> at < self.spec_keys().len(),
            key matches Some(found) ==> found@ == self.spec_keys()[at as int],
    {
        if at < self.keys.len() {
            Some(&self.keys[at])
        } else {
            None
        }
    }
}

} // verus!

verus! {

/// The map that a sequence of keyed entries makes when they are inserted in
/// order: of two entries with the same key, the later one stays.
pub open spec fn spec_collected<V>(entries: Seq<(String, V)>) -> Map<Seq<char>, V>
    decreases entries.len(),
{
    if entries.len() == 0 {
        Map::empty()
    } else {
        spec_collected(entries.drop_last()).insert(entries.last().0@, entries.last().1)
    }
}

/// Whether some entry of `entries` has the key `key`.
pub open spec fn spec_has_key<V>(entries: Seq<(String, V)>, key: Seq<char>) -> bool {
    exists|at: int| 0 <= at < entries.len() && #[trigger] entries[at].0@ == key
}

/// Whether no entry of `entries` after the one at `at` has the same key.
pub open spec fn spec_is_last_of_key<V>(entries: Seq<(String, V)>, at: int) -> bool {
    forall|later: int| at < later < entries.len() ==> #[trigger] entries[later].0@ != entries[at].0@
}

/// The map made of a sequence of entries holds exactly the keys of the
/// entries, and under each key the value of the last entry with this key.
pub proof fn lemma_collected<V>(entries: Seq<(String, V)>)
    ensures
        forall|key: Seq<char>| #[trigger]
            spec_collected(entries).contains_key(key) <==> spec_has_key(entries, key),
        forall|at: int|
            0 <= at < entries.len() && #[trigger] spec_is_last_of_key(entries, at)
                ==> spec_collected(entries).contains_key(entries[at].0@) && spec_collected(
                entries,
            )[entries[at].0@] == entries[at].1,
        forall|key: Seq<char>| #[trigger]
            spec_collected(entries).contains_key(key) ==> exists|at: int|
                0 <= at < entries.len() && #[trigger] entries[at].0@ == key && spec_collected(
                    entries,
                )[key] == entries[at].1,
    decreases entries.len(),
{
    if entries.len() > 0 {
        let front = entries.drop_last();
        let last = entries.last();
        lemma_collected(front);
        assert forall|key: Seq<char>| #[trigger]
            spec_collected(entries).contains_key(key) implies exists|at: int|
            0 <= at < entries.len() && #[trigger] entries[at].0@ == key && spec_collected(
                entries,
            )[key] == entries[at].1 by {
            if key == last.0@ {
                let at = entries.len() - 1;
                assert(entries[at].0@ == key && spec_collected(entries)[key] == entries[at].1);
            } else {
                assert(spec_collected(front).contains_key(key));
                let at = choose|at: int|
                    0 <= at < front.len() && #[trigger] front[at].0@ == key && spec_collected(
                        front,
                    )[key] == front[at].1;
                assert(entries[at].0@ == key && spec_collected(entries)[key] == entries[at].1);
            }
        }
        assert forall|key: Seq<char>| #[trigger]
            spec_collected(entries).contains_key(key) implies spec_has_key(entries, key) by {
            if key == last.0@ {
                assert(entries[entries.len() - 1].0@ == key);
            } else {
                assert(spec_collected(front).contains_key(key));
                assert(spec_has_key(front, key));
                let at = choose|at: int| 0 <= at < front.len() && #[trigger] front[at].0@ == key;
                assert(entries[at].0@ == key);
            }
        }
        assert forall|key: Seq<char>| spec_has_key(entries, key) implies #[trigger] spec_collected(
            entries,
        ).contains_key(key) by {
            let at = choose|at: int| 0 <= at < entries.len() && #[trigger] entries[at].0@ == key;
            if at < front.len() {
                assert(front[at].0@ == key);
                assert(spec_has_key(front, key));
                assert(spec_collected(front).contains_key(key));
            }
        }
        assert forall|at: int|
            0 <= at < entries.len() && #[trigger] spec_is_last_of_key(
                entries,
                at,
            ) implies spec_collected(entries).contains_key(entries[at].0@) && spec_collected(
            entries,
        )[entries[at].0@] == entries[at].1 by {
            if at < front.len() {
                assert(front[at] == entries[at]);
                assert(entries[entries.len() - 1].0@ != entries[at].0@);
                assert(spec_is_last_of_key(front, at)) by {
                    assert forall|later: int| at < later < front.len() implies #[trigger] front[later].0@
                        != front[at].0@ by {
                        assert(front[later] == entries[later]);
                        assert(entries[later].0@ != entries[at].0@);
                    }
                }
            }
        }
    }
}

/// The same values in the opposite order.
pub fn reversed<T>(items: Vec<T>) -> (turned: Vec<T>)
    ensures
        turned@ == items@.reverse(),
{
    let ghost all = items@;
    let mut rest = items;
    let mut turned: Vec<T> = Vec::new();
    while rest.len() > 0
        invariant
            rest@.len() + turned@.len() == all.len(),
            rest@ == all.take(rest@.len() as int),
            forall|at: int| 0 <= at < turned@.len() ==> turned@[at] == all[all.len() - 1 - at],
        decreases rest@.len(),
    {
        let ghost last = rest@.len() - 1;
        let item = rest.pop();
        assert(rest@ =~= all.take(last));
        match item {
            Some(item) => {
                turned.push(item);
            },
            None => {
                assert(false);
            },
        }
    }
    assert(turned@ =~= all.reverse());
    turned
}

/// Collects keyed entries into a map, in order: of two entries with the
/// same key, the later one stays.
pub fn collect_keyed<V>(entries: Vec<(String, V)>) -> (map: KeyedMap<V>)
    ensures
        map.wf(),
        map@ == spec_collected(entries@),
{
    let ghost all = entries@;
    let mut rest = reversed(entries);
    let mut map: KeyedMap<V> = KeyedMap::new();
    while rest.len() > 0
        invariant
            map.wf(),
            rest@.len() <= all.len(),
            rest@ == all.reverse().take(rest@.len() as int),
            map@ == spec_collected(all.take(all.len() - rest@.len())),
        decreases rest@.len(),
    {
        let ghost done = all.len() - rest@.len();
        let ghost last = rest@.len() - 1;
        let entry = rest.pop();
        assert(rest@ =~= all.reverse().take(last));
        match entry {
            Some((key, value)) => {
                proof {
                    assert(all.reverse()[last] == all[done]);
                    assert(all.take(done + 1).drop_last() =~= all.take(done));
                    assert(all.take(done + 1).last() == all[done]);
                }
                map.insert(key, value);
            },
            None => {
                assert(false);
            },
        }
    }
    assert(all.take(all.len() as int) =~= all);
    map
}

} // verus!
