//! Maps from texts, kept as lists in which every key stands once.

use crate::text;
use vstd::prelude::*;

verus! {

/// A map from texts.
#[derive(Debug)]
pub struct TextMap<V> {
    entries: Vec<(String, V)>,
}

/// The place of `key`, from `i` on.
spec fn place_from<V>(entries: Seq<(String, V)>, key: Seq<char>, i: int) -> Option<int>
    decreases entries.len() - i,
{
    if i < 0 || i >= entries.len() {
        None
    } else if entries[i].0@ == key {
        Some(i)
    } else {
        place_from(entries, key, i + 1)
    }
}

proof fn lemma_place<V>(entries: Seq<(String, V)>, key: Seq<char>, from: int)
    requires
        0 <= from,
    ensures
        match place_from(entries, key, from) {
            Some(i) => from <= i < entries.len() && entries[i].0@ == key && forall|j: int|
                from <= j < i ==> (#[trigger] entries[j]).0@ != key,
            None => forall|j: int| from <= j < entries.len() ==> (#[trigger] entries[j]).0@ != key,
        },
    decreases entries.len() - from,
{
    if from < entries.len() && entries[from].0@ != key {
        lemma_place(entries, key, from + 1);
    }
}

/// The first place is the one that all conditions point to.
proof fn lemma_place_is<V>(entries: Seq<(String, V)>, key: Seq<char>, i: int)
    requires
        0 <= i < entries.len(),
        entries[i].0@ == key,
        forall|j: int| 0 <= j < i ==> (#[trigger] entries[j]).0@ != key,
    ensures
        place_from(entries, key, 0) == Some(i),
{
    lemma_place(entries, key, 0);
}

impl<V> View for TextMap<V> {
    type V = Map<Seq<char>, V>;

    closed spec fn view(&self) -> Map<Seq<char>, V> {
        Map::new(
            |k: Seq<char>| place_from(self.entries@, k, 0) is Some,
            |k: Seq<char>| self.entries@[place_from(self.entries@, k, 0)->0].1,
        )
    }
}

impl<V> TextMap<V> {
    /// A map without keys.
    pub fn new() -> (r: TextMap<V>)
        ensures
            r@ == Map::<Seq<char>, V>::empty(),
    {
        let r = TextMap { entries: Vec::new() };
        assert(r@ =~= Map::<Seq<char>, V>::empty());
        r
    }

    fn find(&self, key: &str) -> (r: Option<usize>)
        ensures
            match r {
                Some(i) => i < self.entries@.len() && place_from(self.entries@, key@, 0) == Some(
                    i as int,
                ),
                None => place_from(self.entries@, key@, 0) is None,
            },
    {
        let mut i: usize = 0;
        while i < self.entries.len()
            invariant
                i <= self.entries@.len(),
                place_from(self.entries@, key@, 0) == place_from(self.entries@, key@, i as int),
            decreases self.entries@.len() - i,
        {
            if text::same(self.entries[i].0.as_str(), key) {
                return Some(i);
            }
            i = i + 1;
        }
        None
    }

    /// The value of `key`.
    pub fn get(&self, key: &str) -> (r: Option<&V>)
        ensures
            match r {
                Some(v) => self@.contains_key(key@) && self@[key@] == *v,
                None => !self@.contains_key(key@),
            },
    {
        match self.find(key) {
            Some(i) => Some(&self.entries[i].1),
            None => None,
        }
    }

    /// Sets the value of `key`.
    pub fn insert(&mut self, key: &str, value: V)
        ensures
            final(self)@ == old(self)@.insert(key@, value),
    {
        let ghost before = self.entries@;
        let at = self.find(key);
        let k = key.to_owned();
        match at {
            Some(i) => {
                self.entries.set(i, (k, value));
            },
            None => {
                self.entries.push((k, value));
            },
        }
        proof {
            let after = self.entries@;
            lemma_place(before, key@, 0);
            assert forall|q: Seq<char>|
                (#[trigger] place_from(after, q, 0)) == if q == key@ && at is None {
                    Some(before.len() as int)
                } else {
                    place_from(before, q, 0)
                } by {
                lemma_place(before, q, 0);
                lemma_place(after, q, 0);
                match at {
                    Some(i) => {
                        assert(forall|j: int|
                            0 <= j < before.len() ==> (#[trigger] after[j]).0@ == before[j].0@);
                        match place_from(before, q, 0) {
                            Some(p) => {
                                lemma_place_is(after, q, p);
                            },
                            None => {},
                        }
                    },
                    None => {
                        assert(forall|j: int|
                            0 <= j < before.len() ==> #[trigger] after[j] == before[j]);
                        if q == key@ {
                            lemma_place_is(after, q, before.len() as int);
                        } else {
                            match place_from(before, q, 0) {
                                Some(p) => {
                                    lemma_place_is(after, q, p);
                                },
                                None => {},
                            }
                        }
                    },
                }
            }
            assert forall|q: Seq<char>| #[trigger]
                self@.contains_key(q) == old(self)@.insert(key@, value).contains_key(q) by {
                assert(place_from(after, q, 0) == place_from(after, q, 0));
            }
            assert forall|q: Seq<char>| self@.contains_key(q) implies #[trigger] self@[q]
                == old(self)@.insert(key@, value)[q] by {
                lemma_place(before, q, 0);
                assert(place_from(after, q, 0) == place_from(after, q, 0));
            }
            assert(self@ =~= old(self)@.insert(key@, value));
        }
    }
}

}
