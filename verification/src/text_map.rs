//! A small map from text to text.

use crate::text::same_text;
use vstd::prelude::*;

verus! {

/// A map from text to text; every key occurs once.
#[derive(Debug)]
pub struct TextMap {
    entries: Vec<(String, String)>,
}

/// Position `i` of `entries` holds `key`.
pub closed spec fn holds_at(entries: Seq<(String, String)>, key: Seq<char>, i: int) -> bool {
    0 <= i < entries.len() && entries[i].0@ == key
}

impl View for TextMap {
    type V = Map<Seq<char>, Seq<char>>;

    closed spec fn view(&self) -> Map<Seq<char>, Seq<char>> {
        let entries = self.entries@;
        Map::new(
            |key: Seq<char>| exists|i: int| holds_at(entries, key, i),
            |key: Seq<char>| entries[choose|i: int| holds_at(entries, key, i)].1@,
        )
    }
}

impl TextMap {
    #[verifier::type_invariant]
    spec fn keys_are_distinct(self) -> bool {
        forall|i: int, j: int|
            0 <= i < j < self.entries@.len() ==> self.entries@[i].0@ != self.entries@[j].0@
    }

    /// The keys in the order in which they were first inserted.
    pub closed spec fn keys(self) -> Seq<Seq<char>> {
        self.entries@.map_values(|e: (String, String)| e.0@)
    }

    /// An empty map.
    pub fn new() -> (r: Self)
        ensures
            r@ == Map::<Seq<char>, Seq<char>>::empty(),
    {
        let r = TextMap { entries: Vec::new() };
        assert(r@ =~= Map::<Seq<char>, Seq<char>>::empty()) by {
            assert forall|key: Seq<char>| !r@.contains_key(key) by {
                assert(forall|i: int| !holds_at(r.entries@, key, i));
            }
        }
        r
    }

    /// The position of `key`, if it is present.
    fn position(&self, key: &str) -> (r: Option<usize>)
        ensures
            match r {
                Some(i) => holds_at(self.entries@, key@, i as int) && self@.contains_key(key@)
                    && self@[key@] == self.entries@[i as int].1@,
                None => !self@.contains_key(key@) && forall|i: int| !holds_at(self.entries@, key@, i),
            },
    {
        proof {
            use_type_invariant(self);
        }
        let mut i: usize = 0;
        while i < self.entries.len()
            invariant
                i <= self.entries@.len(),
                forall|j: int| 0 <= j < i ==> self.entries@[j].0@ != key@,
                forall|i: int, j: int|
                    0 <= i < j < self.entries@.len() ==> self.entries@[i].0@ != self.entries@[j].0@,
            decreases self.entries@.len() - i,
        {
            if same_text(self.entries[i].0.as_str(), key) {
                proof {
                    assert(holds_at(self.entries@, key@, i as int));
                    let chosen = choose|k: int| holds_at(self.entries@, key@, k);
                    assert(holds_at(self.entries@, key@, chosen));
                    assert(chosen == i);
                }
                return Some(i);
            }
            i = i + 1;
        }
        None
    }

    /// The value of `key`, if it is present.
    pub fn get(&self, key: &str) -> (r: Option<&String>)
        ensures
            match r {
                Some(value) => self@.contains_key(key@) && self@[key@] == value@,
                None => !self@.contains_key(key@),
            },
    {
        match self.position(key) {
            Some(i) => Some(&self.entries[i].1),
            None => None,
        }
    }

    /// Sets `key` to `value` and returns the value it had.
    pub fn insert(&mut self, key: String, value: String) -> (r: Option<String>)
        ensures
            final(self)@ == old(self)@.insert(key@, value@),
            match r {
                Some(previous) => old(self)@.contains_key(key@) && old(self)@[key@] == previous@,
                None => !old(self)@.contains_key(key@),
            },
    {
        proof {
            use_type_invariant(&*self);
        }
        let found = self.position(key.as_str());
        let ghost before = self.entries@;
        let ghost name = key@;
        let ghost text = value@;
        let mut entries: Vec<(String, String)> = Vec::new();
        std::mem::swap(&mut entries, &mut self.entries);
        match found {
            Some(i) => {
                let previous = entries[i].1.clone();
                entries.set(i, (key, value));
                assert forall|a: int, b: int| 0 <= a < b < entries@.len() implies entries@[a].0@
                    != entries@[b].0@ by {
                    assert(entries@[a].0@ == before[a].0@);
                    assert(entries@[b].0@ == before[b].0@);
                }
                self.entries = entries;
                proof {
                    lemma_updated(*old(self), *self, name, text, i as int);
                }
                Some(previous)
            },
            None => {
                entries.push((key, value));
                assert forall|a: int, b: int| 0 <= a < b < entries@.len() implies entries@[a].0@
                    != entries@[b].0@ by {
                    assert(entries@[a] == before[a]);
                    if b == before.len() {
                        assert(!holds_at(before, name, a));
                    } else {
                        assert(entries@[b] == before[b]);
                    }
                }
                self.entries = entries;
                proof {
                    lemma_updated(*old(self), *self, name, text, before.len() as int);
                }
                None
            },
        }
    }

    /// The number of entries.
    pub fn len(&self) -> (r: usize)
        ensures
            self@.dom().finite(),
            r == self@.dom().len(),
            r == self.keys().len(),
            self.keys().no_duplicates(),
            self.keys().to_set() == self@.dom(),
    {
        proof {
            use_type_invariant(self);
            lemma_len(*self);
        }
        self.entries.len()
    }

    /// The entry at position `i`, in the order in which the keys were first inserted.
    pub fn entry(&self, i: usize) -> (r: Option<(&String, &String)>)
        ensures
            match r {
                Some((key, value)) => i < self.keys().len() && key@ == self.keys()[i as int]
                    && self@.contains_key(key@) && self@[key@] == value@,
                None => i >= self.keys().len(),
            },
    {
        proof {
            use_type_invariant(self);
            lemma_len(*self);
        }
        if i < self.entries.len() {
            proof {
                let key = self.entries@[i as int].0@;
                assert(holds_at(self.entries@, key, i as int));
                let chosen = choose|k: int| holds_at(self.entries@, key, k);
                assert(holds_at(self.entries@, key, chosen));
                assert(chosen == i);
            }
            Some((&self.entries[i].0, &self.entries[i].1))
        } else {
            None
        }
    }
}

/// A map has as many keys as entries.
proof fn lemma_len(map: TextMap)
    requires
        map.keys_are_distinct(),
    ensures
        map@.dom().finite(),
        map@.dom().len() == map.entries@.len(),
        map.keys().len() == map.entries@.len(),
        map.keys().no_duplicates(),
        map.keys().to_set() == map@.dom(),
{
    let keys = map.keys();
    assert(keys.no_duplicates());
    keys.unique_seq_to_set();
    assert(map@.dom() =~= keys.to_set()) by {
        assert forall|key: Seq<char>| map@.dom().contains(key) implies keys.contains(key) by {
            let i = choose|i: int| holds_at(map.entries@, key, i);
            assert(keys[i] == key);
        }
        assert forall|key: Seq<char>| keys.contains(key) implies map@.dom().contains(key) by {
            let i = choose|i: int| 0 <= i < keys.len() && keys[i] == key;
            assert(holds_at(map.entries@, key, i));
        }
    }
}

/// Writing `value` at the one position that `key` has, or at a new last one, inserts it.
proof fn lemma_updated(before: TextMap, after: TextMap, key: Seq<char>, value: Seq<char>, at: int)
    requires
        before.keys_are_distinct(),
        after.keys_are_distinct(),
        0 <= at < after.entries@.len(),
        after.entries@[at].0@ == key,
        after.entries@[at].1@ == value,
        before.entries@.len() == after.entries@.len() && before.entries@[at].0@ == key
            || before.entries@.len() + 1 == after.entries@.len() && at == before.entries@.len(),
        forall|i: int| 0 <= i < before.entries@.len() && i != at ==> before.entries@[i] == after.entries@[i],
    ensures
        after@ == before@.insert(key, value),
{
    let old_entries = before.entries@;
    let new_entries = after.entries@;
    assert forall|k: Seq<char>|
        #![trigger after@.contains_key(k)]
        after@.contains_key(k) == before@.insert(key, value).contains_key(k) by {
        if after@.contains_key(k) {
            let i = choose|i: int| holds_at(new_entries, k, i);
            assert(holds_at(new_entries, k, i));
            if i != at {
                assert(holds_at(old_entries, k, i));
            }
        }
        if before@.contains_key(k) {
            let i = choose|i: int| holds_at(old_entries, k, i);
            assert(holds_at(old_entries, k, i));
            assert(holds_at(new_entries, k, i));
        }
        assert(holds_at(new_entries, key, at));
    }
    assert forall|k: Seq<char>|
        #![trigger after@[k]]
        after@.contains_key(k) implies after@[k] == before@.insert(key, value)[k] by {
        let i = choose|i: int| holds_at(new_entries, k, i);
        assert(holds_at(new_entries, k, i));
        if k == key {
            assert(i == at);
        } else {
            assert(holds_at(old_entries, k, i));
            let j = choose|j: int| holds_at(old_entries, k, j);
            assert(holds_at(old_entries, k, j));
            assert(i == j);
        }
    }
    assert(after@ =~= before@.insert(key, value));
}

impl Clone for TextMap {
    fn clone(&self) -> (r: Self)
        ensures
            r@ == self@,
    {
        proof {
            use_type_invariant(self);
        }
        let mut entries: Vec<(String, String)> = Vec::new();
        let mut i: usize = 0;
        while i < self.entries.len()
            invariant
                i <= self.entries@.len(),
                entries@ == self.entries@.take(i as int),
            decreases self.entries@.len() - i,
        {
            entries.push((self.entries[i].0.clone(), self.entries[i].1.clone()));
            i = i + 1;
        }
        assert(entries@ =~= self.entries@);
        TextMap { entries }
    }
}

impl Default for TextMap {
    fn default() -> (r: Self)
        ensures
            r@ == Map::<Seq<char>, Seq<char>>::empty(),
    {
        TextMap::new()
    }
}

} // verus!
