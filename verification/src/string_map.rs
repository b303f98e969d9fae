//! A map keyed by strings, each key held once.
use vstd::prelude::*;

use crate::keyed::{
    Keyed, find_key, keyed_map, keys_distinct, lemma_keyed_at, lemma_keyed_len, lemma_keyed_push,
    lemma_keyed_remove, lemma_keyed_update,
};

verus! {

/// A key with its value.
pub struct Entry<V> {
    pub key: String,
    pub value: V,
}

impl<V> Keyed for Entry<V> {
    open spec fn key(&self) -> Seq<char> {
        self.key@
    }

    fn key_str(&self) -> (s: &str) {
        self.key.as_str()
    }
}

/// A map from strings to values.
pub struct StringMap<V> {
    entries: Vec<Entry<V>>,
}

impl<V> View for StringMap<V> {
    type V = Map<Seq<char>, V>;

    closed spec fn view(&self) -> Map<Seq<char>, V> {
        keyed_map(self.entries@).map_values(|e: Entry<V>| e.value)
    }
}

impl<V> StringMap<V> {
    #[verifier::type_invariant]
    spec fn inv(self) -> bool {
        keys_distinct(self.entries@)
    }

    proof fn lemma_view_at(&self, i: int)
        requires
            self.inv(),
            0 <= i < self.entries@.len(),
        ensures
            self@.contains_key(self.entries@[i].key@),
            self@[self.entries@[i].key@] == self.entries@[i].value,
    {
        lemma_keyed_at(self.entries@, i);
    }

    pub fn new() -> (m: Self)
        ensures
            m@ == Map::<Seq<char>, V>::empty(),
    {
        let m = Self { entries: Vec::new() };
        assert(m@ =~= Map::<Seq<char>, V>::empty());
        m
    }

    /// Sets the value of `key`, and hands back the value it replaces.
    pub fn insert(&mut self, key: String, value: V) -> (old_value: Option<V>)
        ensures
            final(self)@ == old(self)@.insert(key@, value),
            match old_value {
                Some(v) => old(self)@.contains_key(key@) && v == old(self)@[key@],
                None => !old(self)@.contains_key(key@),
            },
    {
        proof {
            use_type_invariant(&*self);
        }
        let ghost old_entries = self.entries@;
        let ghost old_view = self@;
        let e = Entry { key, value };
        let ghost ev = e;
        let mut entries: Vec<Entry<V>> = Vec::new();
        std::mem::swap(&mut entries, &mut self.entries);
        let r = match find_key(&entries, e.key.as_str()) {
            Some(i) => {
                proof {
                    lemma_keyed_at(old_entries, i as int);
                    lemma_keyed_remove(old_entries, i as int);
                }
                let old_entry = entries.remove(i);
                entries.insert(i, e);
                proof {
                    assert(entries@ =~= old_entries.update(i as int, ev));
                    lemma_keyed_update(old_entries, i as int, ev);
                }
                Some(old_entry.value)
            },
            None => {
                entries.push(e);
                proof {
                    lemma_keyed_push(old_entries, ev);
                }
                None
            },
        };
        self.entries = entries;
        proof {
            assert(self@ =~= old_view.insert(ev.key@, ev.value));
        }
        r
    }

    /// The value of `key`, if it has one.
    pub fn get(&self, key: &str) -> (r: Option<&V>)
        ensures
            match r {
                Some(v) => self@.contains_key(key@) && *v == self@[key@],
                None => !self@.contains_key(key@),
            },
    {
        proof {
            use_type_invariant(self);
        }
        match find_key(&self.entries, key) {
            Some(i) => {
                proof {
                    self.lemma_view_at(i as int);
                }
                Some(&self.entries[i].value)
            },
            None => None,
        }
    }

    /// Whether `key` has a value.
    pub fn contains_key(&self, key: &str) -> (b: bool)
        ensures
            b == self@.contains_key(key@),
    {
        self.get(key).is_some()
    }

    /// Removes `key`, and hands back its value.
    pub fn remove(&mut self, key: &str) -> (r: Option<V>)
        ensures
            final(self)@ == old(self)@.remove(key@),
            match r {
                Some(v) => old(self)@.contains_key(key@) && v == old(self)@[key@],
                None => !old(self)@.contains_key(key@),
            },
    {
        proof {
            use_type_invariant(&*self);
        }
        let ghost old_entries = self.entries@;
        let ghost old_view = self@;
        let mut entries: Vec<Entry<V>> = Vec::new();
        std::mem::swap(&mut entries, &mut self.entries);
        let r = match find_key(&entries, key) {
            Some(i) => {
                proof {
                    lemma_keyed_at(old_entries, i as int);
                    lemma_keyed_remove(old_entries, i as int);
                }
                let e = entries.remove(i);
                Some(e.value)
            },
            None => {
                proof {
                    assert(keyed_map(old_entries) =~= keyed_map(old_entries).remove(key@));
                }
                None
            },
        };
        self.entries = entries;
        proof {
            assert(self@ =~= old_view.remove(key@));
        }
        r
    }

    /// The number of keys.
    pub fn len(&self) -> (n: usize)
        ensures
            n == self@.len(),
    {
        proof {
            use_type_invariant(self);
            lemma_keyed_len(self.entries@);
            assert(self@.dom() =~= keyed_map(self.entries@).dom());
        }
        self.entries.len()
    }

    /// The keys, each once.
    pub fn keys(&self) -> (r: Vec<&String>)
        ensures
            forall|a: int, b: int| 0 <= a < b < r@.len() ==> r@[a]@ != r@[b]@,
            forall|a: int| 0 <= a < r@.len() ==> #[trigger] self@.contains_key(r@[a]@),
            forall|k: Seq<char>|
                #[trigger] self@.contains_key(k) ==> exists|a: int| 0 <= a < r@.len() && r@[a]@ == k,
    {
        proof {
            use_type_invariant(self);
        }
        let mut r: Vec<&String> = Vec::new();
        let mut i: usize = 0;
        while i < self.entries.len()
            invariant
                keys_distinct(self.entries@),
                i <= self.entries@.len(),
                r@.len() == i,
                forall|a: int| 0 <= a < i ==> #[trigger] r@[a]@ == self.entries@[a].key@,
            decreases self.entries@.len() - i,
        {
            r.push(&self.entries[i].key);
            i = i + 1;
        }
        proof {
            assert forall|a: int, b: int| 0 <= a < b < r@.len() implies r@[a]@ != r@[b]@ by {
                assert(self.entries@[a].key() != self.entries@[b].key());
            }
            assert forall|a: int| 0 <= a < r@.len() implies #[trigger] self@.contains_key(r@[a]@) by {
                self.lemma_view_at(a);
            }
            assert forall|k: Seq<char>| #[trigger] self@.contains_key(k) implies exists|a: int|
                0 <= a < r@.len() && r@[a]@ == k by {
                let j = choose|j: int| 0 <= j < self.entries@.len() && #[trigger] self.entries@[j].key() == k;
                assert(r@[j]@ == k);
            }
        }
        r
    }
}

/// Removing a key that was just set gives back the map as it was without it.
pub proof fn lemma_remove_undoes_insert<V>(m: Map<Seq<char>, V>, k: Seq<char>, v: V)
    requires
        !m.contains_key(k),
    ensures
        m.insert(k, v).remove(k) == m,
{
    assert(m.insert(k, v).remove(k) =~= m);
}

} // verus!
