//! A map from texts to values.

use crate::text::{same_text, texts};
use vstd::prelude::*;

verus! {

pub struct TextEntry<V> {
    pub key: String,
    pub value: V,
}

/// Values filed under texts: each text has at most one.
pub struct TextMap<V> {
    entries: Vec<TextEntry<V>>,
}

spec fn place_of<V>(entries: Seq<TextEntry<V>>, key: Seq<char>) -> int {
    choose|i: int| 0 <= i < entries.len() && (#[trigger] entries[i]).key@ == key
}

spec fn keys_differ<V>(entries: Seq<TextEntry<V>>) -> bool {
    forall|i: int, j: int|
        0 <= i < j < entries.len() ==> (#[trigger] entries[i]).key@ != (#[trigger] entries[j]).key@
}

proof fn entry_at<V>(map: TextMap<V>, i: int)
    requires
        keys_differ(map.entries@),
        0 <= i < map.entries@.len(),
    ensures
        map@.dom().contains(map.entries@[i].key@),
        map@[map.entries@[i].key@] == map.entries@[i].value,
{
    let entries = map.entries@;
    let key = entries[i].key@;
    let j = place_of(entries, key);
    assert(0 <= j < entries.len() && entries[j].key@ == key);
    assert(i == j);
}

impl<V> View for TextMap<V> {
    type V = Map<Seq<char>, V>;

    closed spec fn view(&self) -> Map<Seq<char>, V> {
        Map::new(
            |key: Seq<char>|
                exists|i: int|
                    0 <= i < self.entries@.len() && (#[trigger] self.entries@[i]).key@ == key,
            |key: Seq<char>| self.entries@[place_of(self.entries@, key)].value,
        )
    }
}

impl<V> TextMap<V> {
    #[verifier::type_invariant]
    spec fn keys_are_distinct(self) -> bool {
        keys_differ(self.entries@)
    }

    pub fn new() -> (r: TextMap<V>)
        ensures
            r@ == Map::<Seq<char>, V>::empty(),
    {
        let r = TextMap { entries: Vec::new() };
        proof {
            assert(r@ =~= Map::empty());
        }
        r
    }

    fn position(&self, key: &str) -> (r: Option<usize>)
        ensures
            match r {
                Some(i) => i < self.entries@.len() && self.entries@[i as int].key@ == key@,
                None => forall|i: int|
                    0 <= i < self.entries@.len() ==> (#[trigger] self.entries@[i]).key@ != key@,
            },
    {
        let mut i: usize = 0;
        while i < self.entries.len()
            invariant
                i <= self.entries@.len(),
                forall|j: int| 0 <= j < i ==> (#[trigger] self.entries@[j]).key@ != key@,
            decreases self.entries@.len() - i,
        {
            if same_text(self.entries[i].key.as_str(), key) {
                return Some(i);
            }
            i += 1;
        }
        None
    }

    pub fn get(&self, key: &str) -> (r: Option<&V>)
        ensures
            match r {
                Some(value) => self@.dom().contains(key@) && *value == self@[key@],
                None => !self@.dom().contains(key@),
            },
    {
        proof {
            use_type_invariant(self);
        }
        match self.position(key) {
            Some(i) => {
                proof {
                    entry_at(*self, i as int);
                }
                Some(&self.entries[i].value)
            },
            None => None,
        }
    }

    pub fn contains_key(&self, key: &str) -> (r: bool)
        ensures
            r == self@.dom().contains(key@),
    {
        self.get(key).is_some()
    }

    pub fn is_empty(&self) -> (r: bool)
        ensures
            r == (self@ == Map::<Seq<char>, V>::empty()),
    {
        if self.entries.len() == 0 {
            assert(self@ =~= Map::empty());
            true
        } else {
            proof {
                use_type_invariant(self);
                entry_at(*self, 0);
            }
            false
        }
    }

    /// The map with `value` filed under `key`, in place of what stood there.
    pub fn insert(self, key: &str, value: V) -> (r: TextMap<V>)
        ensures
            r@ == self@.insert(key@, value),
    {
        proof {
            use_type_invariant(&self);
        }
        let found = self.position(key);
        let ghost before = self;
        let TextMap { entries } = self;
        let mut entries = entries;
        let ghost old_entries = entries@;
        let ghost added = value;
        let entry = TextEntry { key: key.to_owned(), value };
        let at: usize = match found {
            Some(i) => {
                entries.set(i, entry);
                i
            },
            None => {
                let end: usize = entries.len();
                entries.push(entry);
                end
            },
        };
        let r = TextMap { entries };
        proof {
            assert forall|k: Seq<char>| r@.dom().contains(k) == before@.insert(
                key@,
                added,
            ).dom().contains(k) by {
                if before@.dom().contains(k) {
                    let j = place_of(old_entries, k);
                    assert(r.entries@[j].key@ == k);
                }
                if r@.dom().contains(k) {
                    let j = place_of(r.entries@, k);
                    if j != at {
                        assert(old_entries[j].key@ == k);
                    }
                }
                assert(r.entries@[at as int].key@ == key@);
            }
            assert forall|k: Seq<char>| r@.dom().contains(k) implies r@[k] == before@.insert(
                key@,
                added,
            )[k] by {
                let j = place_of(r.entries@, k);
                entry_at(r, j);
                if j != at {
                    entry_at(before, j);
                }
            }
            assert(r@ =~= before@.insert(key@, added));
        }
        r
    }

    /// The keys, each once.
    pub fn keys(&self) -> (r: Vec<String>)
        ensures
            texts(r@).no_duplicates(),
            texts(r@).to_set() == self@.dom(),
    {
        proof {
            use_type_invariant(self);
        }
        let mut r: Vec<String> = Vec::new();
        let mut i: usize = 0;
        while i < self.entries.len()
            invariant
                i <= self.entries@.len(),
                keys_differ(self.entries@),
                r@.len() == i,
                forall|j: int| 0 <= j < i ==> (#[trigger] r@[j])@ == self.entries@[j].key@,
            decreases self.entries@.len() - i,
        {
            r.push(self.entries[i].key.clone());
            i += 1;
        }
        proof {
            assert forall|k: Seq<char>| texts(r@).to_set().contains(k) == self@.dom().contains(
                k,
            ) by {
                if texts(r@).to_set().contains(k) {
                    let j = choose|j: int| 0 <= j < texts(r@).len() && texts(r@)[j] == k;
                    assert(r@[j]@ == self.entries@[j].key@);
                }
                if self@.dom().contains(k) {
                    let j = place_of(self.entries@, k);
                    assert(texts(r@)[j] == k);
                }
            }
            assert(texts(r@).to_set() =~= self@.dom());
            assert forall|a: int, b: int| 0 <= a < b < texts(r@).len() implies texts(r@)[a]
                != texts(r@)[b] by {
                assert(r@[a]@ == self.entries@[a].key@);
                assert(r@[b]@ == self.entries@[b].key@);
            }
        }
        r
    }
}

} // verus!
