//! What is known of each of several devices, by a key.

use vstd::prelude::*;

use crate::text::same_text;

verus! {

/// Values under distinct keys, listed in the order in which the keys came.
#[verifier::reject_recursive_types(V)]
pub struct Registry<V> {
    entries: Vec<(String, V)>,
}

/// Whether a key is another one than `key`.
pub open spec fn other_than(key: Seq<char>) -> spec_fn(Seq<char>) -> bool {
    |other: Seq<char>| other != key
}

/// The keys of `entries`, in order.
pub closed spec fn entry_keys<V>(entries: Seq<(String, V)>) -> Seq<Seq<char>> {
    entries.map_values(|entry: (String, V)| entry.0@)
}

impl<V> View for Registry<V> {
    type V = Map<Seq<char>, V>;

    closed spec fn view(&self) -> Map<Seq<char>, V> {
        Map::new(
            |key: Seq<char>| self.keys().contains(key),
            |key: Seq<char>| self.entries@[self.keys().index_of(key)].1,
        )
    }
}

impl<V> Registry<V> {
    /// The keys, in the order in which they came.
    pub closed spec fn keys(&self) -> Seq<Seq<char>> {
        entry_keys(self.entries@)
    }

    /// No key stands twice.
    #[verifier::type_invariant]
    spec fn keys_are_distinct(&self) -> bool {
        entry_keys(self.entries@).no_duplicates()
    }

    /// A registry without values.
    pub fn new() -> (registry: Self)
        ensures
            registry@ == Map::<Seq<char>, V>::empty(),
            registry.keys() == Seq::<Seq<char>>::empty(),
    {
        let registry = Registry { entries: Vec::new() };
        assert(registry@ =~= Map::<Seq<char>, V>::empty());
        registry
    }

    /// The number of keys. Each key is listed once.
    pub fn len(&self) -> (n: usize)
        ensures
            n == self.keys().len(),
            self.keys().no_duplicates(),
            forall|key: Seq<char>| #[trigger]
                self@.contains_key(key) == self.keys().contains(key),
    {
        proof {
            use_type_invariant(&*self);
        }
        self.entries.len()
    }

    /// The place of `key`.
    fn find(&self, key: &str) -> (at: Option<usize>)
        ensures
            match at {
                Some(i) => i < self.entries@.len() && self.entries@[i as int].0@ == key@
                    && self.keys().index_of(key@) == i && self.keys().contains(key@),
                None => !self.keys().contains(key@),
            },
    {
        proof {
            use_type_invariant(&*self);
        }
        for i in 0..self.entries.len()
            invariant
                self.keys().no_duplicates(),
                forall|j: int| 0 <= j < i ==> (#[trigger] self.entries@[j]).0@ != key@,
        {
            if same_text(self.entries[i].0.as_str(), key) {
                assert(self.keys()[i as int] == key@);
                return Some(i);
            }
        }
        assert(!self.keys().contains(key@));
        None
    }

    /// The value under `key`.
    pub fn get(&self, key: &str) -> (value: Option<&V>)
        ensures
            match value {
                Some(found) => self@.contains_key(key@) && *found == self@[key@],
                None => !self@.contains_key(key@),
            },
    {
        match self.find(key) {
            Some(i) => Some(&self.entries[i].1),
            None => None,
        }
    }

    /// The key and the value at place `i`.
    pub fn at(&self, i: usize) -> (entry: (&String, &V))
        requires
            i < self.keys().len(),
        ensures
            entry.0@ == self.keys()[i as int],
            self@.contains_key(entry.0@),
            *entry.1 == self@[entry.0@],
    {
        proof {
            use_type_invariant(&*self);
            assert(self.keys().contains(self.keys()[i as int]));
        }
        (&self.entries[i].0, &self.entries[i].1)
    }

    /// Puts `value` under `key`, in place of what was there.
    pub fn insert(&mut self, key: String, value: V)
        ensures
            final(self)@ == old(self)@.insert(key@, value),
            final(self).keys() == (if old(self)@.contains_key(key@) {
                old(self).keys()
            } else {
                old(self).keys().push(key@)
            }),
    {
        proof {
            use_type_invariant(&*self);
        }
        let ghost before = *self;
        let place = self.find(key.as_str());
        let mut entries: Vec<(String, V)> = Vec::new();
        std::mem::swap(&mut entries, &mut self.entries);
        match place {
            Some(i) => {
                entries[i] = (key, value);
                assert(entry_keys(entries@) =~= before.keys());
            },
            None => {
                entries.push((key, value));
                assert(entry_keys(entries@) =~= before.keys().push(key@));
            },
        }
        self.entries = entries;
        proof {
            let after = *self;
            assert forall|k: Seq<char>| after@.contains_key(k) implies #[trigger] after@[k]
                == before@.insert(key@, value)[k] by {
                let i = after.keys().index_of(k);
                assert(after.keys()[i] == k);
                if k != key@ {
                    assert(before.keys()[i] == k);
                    assert(before.keys().index_of(k) == i);
                }
            }
            assert(after@.dom() =~= before@.insert(key@, value).dom()) by {
                assert forall|k: Seq<char>| after.keys().contains(k) == (before.keys().contains(k)
                    || k == key@) by {
                    if before.keys().contains(k) {
                        let i = before.keys().index_of(k);
                        assert(after.keys()[i] == k);
                    }
                    if k == key@ {
                        match place {
                            Some(i) => {
                                assert(after.keys()[i as int] == k);
                            },
                            None => {
                                assert(after.keys()[before.keys().len() as int] == k);
                            },
                        }
                    }
                }
            }
            assert(after@ =~= before@.insert(key@, value));
        }
    }

    /// Takes the value under `key` out, and gives it back.
    pub fn remove(&mut self, key: &str) -> (value: Option<V>)
        ensures
            final(self)@ == old(self)@.remove(key@),
            match value {
                Some(found) => old(self)@.contains_key(key@) && found == old(self)@[key@],
                None => !old(self)@.contains_key(key@),
            },
            final(self).keys() == old(self).keys().filter(other_than(key@)),
    {
        proof {
            use_type_invariant(&*self);
        }
        let ghost before = *self;
        match self.find(key) {
            Some(i) => {
                let mut entries: Vec<(String, V)> = Vec::new();
                std::mem::swap(&mut entries, &mut self.entries);
                let entry = entries.remove(i);
                assert(entry_keys(entries@) =~= before.keys().remove(i as int));
                self.entries = entries;
                proof {
                    let after = *self;
                    lemma_remove_key(before.keys(), i as int);
                    assert forall|k: Seq<char>| after.keys().contains(k) == (before.keys().contains(
                        k,
                    ) && k != key@) by {
                        if before.keys().contains(k) && k != key@ {
                            let j = before.keys().index_of(k);
                            let moved = if j < i { j } else { j - 1 };
                            assert(after.keys()[moved] == k);
                        }
                        if after.keys().contains(k) {
                            let j = after.keys().index_of(k);
                            let from = if j < i { j } else { j + 1 };
                            assert(before.keys()[from] == k);
                        }
                    }
                    assert forall|k: Seq<char>| after@.contains_key(k) implies #[trigger] after@[k]
                        == before@.remove(key@)[k] by {
                        let j = after.keys().index_of(k);
                        let from = if j < i { j } else { j + 1 };
                        assert(before.keys()[from] == k);
                        assert(before.keys().index_of(k) == from);
                    }
                    assert(after@ =~= before@.remove(key@));
                }
                Some(entry.1)
            },
            None => {
                proof {
                    assert(before@ =~= before@.remove(key@));
                    lemma_absent_key(before.keys(), key@);
                }
                None
            },
        }
    }
}

/// Without the one place where a key stands, a list is the list of the other
/// keys.
proof fn lemma_remove_key(keys: Seq<Seq<char>>, at: int)
    requires
        keys.no_duplicates(),
        0 <= at < keys.len(),
    ensures
        keys.remove(at) == keys.filter(other_than(keys[at])),
    decreases keys.len(),
{
    let other = other_than(keys[at]);
    let front = keys.drop_last();
    assert(keys =~= front.push(keys.last()));
    front.lemma_filter_push(keys.last(), other);
    if at == keys.len() - 1 {
        lemma_absent_key(front, keys[at]);
        assert(keys.remove(at) =~= front);
    } else {
        lemma_remove_key(front, at);
        assert(keys.remove(at) =~= front.remove(at).push(keys.last()));
    }
}

/// Where a key does not stand in a list, leaving it out changes nothing.
proof fn lemma_absent_key(keys: Seq<Seq<char>>, key: Seq<char>)
    requires
        !keys.contains(key),
    ensures
        keys.filter(other_than(key)) == keys,
    decreases keys.len(),
{
    let other = other_than(key);
    if keys.len() > 0 {
        let front = keys.drop_last();
        assert(keys =~= front.push(keys.last()));
        assert(keys[keys.len() - 1] == keys.last());
        assert(forall|i: int| 0 <= i < front.len() ==> front[i] == keys[i]);
        assert(!front.contains(key));
        lemma_absent_key(front, key);
        front.lemma_filter_push(keys.last(), other);
    } else {
        assert(keys.filter(other) =~= keys) by {
            reveal(Seq::filter);
        }
    }
}

/// Leaving a key out of a list leaves each other one where it was among the
/// others.
pub proof fn law_other_keys_stay_in_order(
    keys: Seq<Seq<char>>,
    key: Seq<char>,
    last: Seq<char>,
)
    ensures
        keys.push(last).filter(other_than(key)) == (if last == key {
            keys.filter(other_than(key))
        } else {
            keys.filter(other_than(key)).push(last)
        }),
{
    keys.lemma_filter_push(last, other_than(key));
}

} // verus!
