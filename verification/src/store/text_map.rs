//! A map with text keys.
use crate::text;
use vstd::prelude::*;

verus! {

/// A map from texts to values of type `T`.
#[derive(Debug)]
pub struct TextMap<T> {
    entries: Vec<(String, T)>,
}

/// Whether entry `i` has the key `key`.
spec fn keyed<T>(entries: Seq<(String, T)>, i: int, key: Seq<char>) -> bool {
    0 <= i < entries.len() && entries[i].0@ == key
}

/// Whether no key occurs twice.
spec fn distinct<T>(entries: Seq<(String, T)>) -> bool {
    forall|i: int, j: int|
        0 <= i < j < entries.len() ==> (#[trigger] entries[i]).0@ != (#[trigger] entries[j]).0@
}

/// The values under their keys.
spec fn as_map<T>(entries: Seq<(String, T)>) -> Map<Seq<char>, T> {
    Map::new(
        |key: Seq<char>| exists|i: int| keyed(entries, i, key),
        |key: Seq<char>| entries[choose|i: int| keyed(entries, i, key)].1,
    )
}

/// Each value stands in the map under its key.
proof fn lemma_entry<T>(entries: Seq<(String, T)>, i: int, key: Seq<char>)
    requires
        distinct(entries),
        keyed(entries, i, key),
    ensures
        as_map(entries).contains_key(key),
        as_map(entries)[key] == entries[i].1,
{
    let k = choose|k: int| keyed(entries, k, key);
    assert(keyed(entries, k, key));
    assert(k == i) by {
        if k < i {
            assert(entries[k].0@ != entries[i].0@);
        } else if i < k {
            assert(entries[i].0@ != entries[k].0@);
        }
    }
}

/// Changing the value of one entry changes the map under that key alone.
proof fn lemma_update<T>(entries: Seq<(String, T)>, i: int, value: T)
    requires
        distinct(entries),
        0 <= i < entries.len(),
    ensures
        distinct(entries.update(i, (entries[i].0, value))),
        as_map(entries.update(i, (entries[i].0, value))) == as_map(entries).insert(
            entries[i].0@,
            value,
        ),
{
    let after = entries.update(i, (entries[i].0, value));
    let key = entries[i].0@;
    assert forall|a: int, b: int| 0 <= a < b < after.len() implies (#[trigger] after[a]).0@ != (
    #[trigger] after[b]).0@ by {
        assert(entries[a].0@ != entries[b].0@);
    }
    assert forall|k: Seq<char>| #[trigger]
        as_map(after).contains_key(k) <==> as_map(entries).insert(key, value).contains_key(k) by {
        if as_map(after).contains_key(k) {
            let j = choose|j: int| keyed(after, j, k);
            assert(keyed(entries, j, k));
        }
        if as_map(entries).contains_key(k) {
            let j = choose|j: int| keyed(entries, j, k);
            assert(keyed(after, j, k));
        }
        assert(keyed(after, i, key));
    }
    assert forall|k: Seq<char>| #[trigger] as_map(after).contains_key(k) implies as_map(after)[k]
        == as_map(entries).insert(key, value)[k] by {
        let j = choose|j: int| keyed(after, j, k);
        lemma_entry(after, j, k);
        assert(keyed(entries, j, k));
        lemma_entry(entries, j, k);
        if k == key {
            lemma_entry(after, i, key);
        }
    }
    assert(as_map(after) =~= as_map(entries).insert(key, value));
}

/// A new entry with a new key adds that key to the map.
proof fn lemma_push<T>(entries: Seq<(String, T)>, key: String, value: T)
    requires
        distinct(entries),
        !as_map(entries).contains_key(key@),
    ensures
        distinct(entries.push((key, value))),
        as_map(entries.push((key, value))) == as_map(entries).insert(key@, value),
{
    let after = entries.push((key, value));
    assert forall|a: int, b: int| 0 <= a < b < after.len() implies (#[trigger] after[a]).0@ != (
    #[trigger] after[b]).0@ by {
        if b == entries.len() {
            if entries[a].0@ == key@ {
                assert(keyed(entries, a, key@));
            }
        } else {
            assert(entries[a].0@ != entries[b].0@);
        }
    }
    assert forall|k: Seq<char>| #[trigger]
        as_map(after).contains_key(k) <==> as_map(entries).insert(key@, value).contains_key(k) by {
        if as_map(after).contains_key(k) {
            let j = choose|j: int| keyed(after, j, k);
            if j < entries.len() {
                assert(keyed(entries, j, k));
            }
        }
        if as_map(entries).contains_key(k) {
            let j = choose|j: int| keyed(entries, j, k);
            assert(keyed(after, j, k));
        }
        assert(keyed(after, entries.len() as int, key@));
    }
    assert forall|k: Seq<char>| #[trigger] as_map(after).contains_key(k) implies as_map(after)[k]
        == as_map(entries).insert(key@, value)[k] by {
        let j = choose|j: int| keyed(after, j, k);
        lemma_entry(after, j, k);
        if j < entries.len() {
            assert(keyed(entries, j, k));
            lemma_entry(entries, j, k);
        }
    }
    assert(as_map(after) =~= as_map(entries).insert(key@, value));
}

impl<T> View for TextMap<T> {
    type V = Map<Seq<char>, T>;

    closed spec fn view(&self) -> Map<Seq<char>, T> {
        as_map(self.entries@)
    }
}

impl<T> TextMap<T> {
    /// Whether each key is there once.
    pub closed spec fn wf(self) -> bool {
        distinct(self.entries@)
    }

    /// How many entries there are.
    pub closed spec fn size(self) -> nat {
        self.entries@.len()
    }

    /// A map without entries.
    pub fn new() -> (r: Self)
        ensures
            r.wf(),
            r@ == Map::<Seq<char>, T>::empty(),
    {
        let r = TextMap { entries: Vec::new() };
        assert(r@ =~= Map::<Seq<char>, T>::empty()) by {
            assert forall|key: Seq<char>| !(#[trigger] r@.contains_key(key)) by {
                if r@.contains_key(key) {
                    let i = choose|i: int| keyed(r.entries@, i, key);
                    assert(keyed(r.entries@, i, key));
                }
            }
        }
        r
    }

    /// The position of the entry with this key.
    fn find(&self, key: &str) -> (r: Option<usize>)
        requires
            self.wf(),
        ensures
            match r {
                Some(i) => keyed(self.entries@, i as int, key@) && self@.contains_key(key@)
                    && self@[key@] == self.entries@[i as int].1,
                None => !self@.contains_key(key@),
            },
    {
        let mut i: usize = 0;
        while i < self.entries.len()
            invariant
                i <= self.entries@.len(),
                self.wf(),
                forall|j: int| 0 <= j < i ==> !#[trigger] keyed(self.entries@, j, key@),
            decreases self.entries@.len() - i,
        {
            if text::same(self.entries[i].0.as_str(), key) {
                proof {
                    lemma_entry(self.entries@, i as int, key@);
                }
                return Some(i);
            }
            i += 1;
        }
        None
    }

    /// Put a value under a key, in place of the one there.
    pub fn insert(&mut self, key: String, value: T)
        requires
            old(self).wf(),
        ensures
            final(self).wf(),
            final(self)@ == old(self)@.insert(key@, value),
    {
        match self.find(key.as_str()) {
            Some(i) => {
                proof {
                    lemma_update(self.entries@, i as int, value);
                }
                self.entries[i].1 = value;
            },
            None => {
                self.add_new(key, value);
            },
        }
    }

    /// Put a value under a key that has none.
    pub fn add_new(&mut self, key: String, value: T)
        requires
            old(self).wf(),
            !old(self)@.contains_key(key@),
        ensures
            final(self).wf(),
            final(self)@ == old(self)@.insert(key@, value),
    {
        proof {
            lemma_push(self.entries@, key, value);
        }
        self.entries.push((key, value));
    }

    /// The value under a key.
    pub fn get(&self, key: &str) -> (r: Option<&T>)
        requires
            self.wf(),
        ensures
            r == (if self@.contains_key(key@) {
                Some(&self@[key@])
            } else {
                None
            }),
    {
        match self.find(key) {
            Some(i) => Some(&self.entries[i].1),
            None => None,
        }
    }

    /// Mutable access to the value under a key.
    pub fn get_mut(&mut self, key: &str) -> (r: Option<&mut T>)
        requires
            old(self).wf(),
        ensures
            final(self).wf(),
            match r {
                Some(value) => old(self)@.contains_key(key@) && *value == old(self)@[key@]
                    && final(self)@ == old(self)@.insert(key@, *final(value)),
                None => !old(self)@.contains_key(key@) && final(self)@ == old(self)@,
            },
    {
        match self.find(key) {
            Some(i) => {
                proof {
                    let entries = self.entries@;
                    assert forall|value: T|
                        distinct(#[trigger] entries.update(i as int, (entries[i as int].0, value)))
                            && as_map(entries.update(i as int, (entries[i as int].0, value)))
                            == self@.insert(key@, value) by {
                        lemma_update(entries, i as int, value);
                    }
                }
                Some(&mut self.entries[i].1)
            },
            None => None,
        }
    }

    /// Take out one entry, where there is any.
    pub fn take_one(&mut self) -> (r: Option<(String, T)>)
        requires
            old(self).wf(),
        ensures
            final(self).wf(),
            match r {
                Some((key, value)) => {
                    &&& old(self)@.contains_key(key@)
                    &&& old(self)@[key@] == value
                    &&& final(self)@ == old(self)@.remove(key@)
                    &&& final(self).size() < old(self).size()
                },
                None => {
                    &&& old(self)@ == Map::<Seq<char>, T>::empty()
                    &&& final(self)@ == old(self)@
                },
            },
    {
        let ghost before = self.entries@;
        let taken = self.entries.pop();
        proof {
            let after = self.entries@;
            if before.len() > 0 {
                let key = before.last().0@;
                assert(!as_map(after).contains_key(key)) by {
                    if as_map(after).contains_key(key) {
                        let j = choose|j: int| keyed(after, j, key);
                        assert(before[j].0@ != before[before.len() - 1].0@);
                    }
                }
                assert(distinct(after)) by {
                    assert forall|a: int, b: int| 0 <= a < b < after.len() implies (
                    #[trigger] after[a]).0@ != (#[trigger] after[b]).0@ by {
                        assert(before[a].0@ != before[b].0@);
                    }
                }
                lemma_push(after, before.last().0, before.last().1);
                assert(after.push(before.last()) =~= before);
                assert(as_map(after) =~= as_map(before).remove(key));
            } else {
                assert(as_map(before) =~= Map::<Seq<char>, T>::empty()) by {
                    assert forall|key: Seq<char>| !(#[trigger] as_map(before).contains_key(key)) by {
                        if as_map(before).contains_key(key) {
                            let i = choose|i: int| keyed(before, i, key);
                            assert(keyed(before, i, key));
                        }
                    }
                }
            }
        }
        taken
    }
}

} // verus!
