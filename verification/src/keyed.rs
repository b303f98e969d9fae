//! Sequences of items that each carry a string key, held at most once per key,
//! viewed as maps from key to item.
use vstd::prelude::*;

use crate::text::str_eq;

verus! {

/// An item that carries a string key.
pub trait Keyed {
    spec fn key(&self) -> Seq<char>;

    fn key_str(&self) -> (s: &str)
        ensures
            s@ == self.key(),
    ;
}

/// No two items of `v` share a key.
pub open spec fn keys_distinct<T: Keyed>(v: Seq<T>) -> bool {
    forall|i: int, j: int| 0 <= i < j < v.len() ==> v[i].key() != v[j].key()
}

/// Some item of `v` has the key `k`.
pub open spec fn has_key<T: Keyed>(v: Seq<T>, k: Seq<char>) -> bool {
    exists|i: int| 0 <= i < v.len() && #[trigger] v[i].key() == k
}

/// The items of `v`, by key.
pub open spec fn keyed_map<T: Keyed>(v: Seq<T>) -> Map<Seq<char>, T> {
    Map::new(
        |k: Seq<char>| has_key(v, k),
        |k: Seq<char>| v[choose|i: int| 0 <= i < v.len() && #[trigger] v[i].key() == k],
    )
}

pub proof fn lemma_keyed_at<T: Keyed>(v: Seq<T>, i: int)
    requires
        keys_distinct(v),
        0 <= i < v.len(),
    ensures
        keyed_map(v).contains_key(v[i].key()),
        keyed_map(v)[v[i].key()] == v[i],
{
    let k = v[i].key();
    assert(has_key(v, k));
    let j = choose|j: int| 0 <= j < v.len() && #[trigger] v[j].key() == k;
    if j != i {
        if j < i {
            assert(v[j].key() != v[i].key());
        } else {
            assert(v[i].key() != v[j].key());
        }
    }
}

pub proof fn lemma_keyed_equal<T: Keyed>(v: Seq<T>, m: Map<Seq<char>, T>)
    requires
        keys_distinct(v),
        forall|k: Seq<char>| #[trigger] m.contains_key(k) ==> has_key(v, k),
        forall|i: int| 0 <= i < v.len() ==> #[trigger] m.contains_key(v[i].key()) && m[v[i].key()] == v[i],
    ensures
        keyed_map(v) == m,
{
    assert forall|k: Seq<char>| #[trigger] keyed_map(v).contains_key(k) == m.contains_key(k) by {
        if has_key(v, k) {
            let j = choose|j: int| 0 <= j < v.len() && #[trigger] v[j].key() == k;
            assert(m.contains_key(v[j].key()));
        }
    }
    assert forall|k: Seq<char>| #[trigger] keyed_map(v).contains_key(k) implies keyed_map(v)[k] == m[k] by {
        let j = choose|j: int| 0 <= j < v.len() && #[trigger] v[j].key() == k;
        lemma_keyed_at(v, j);
        assert(m.contains_key(v[j].key()));
    }
    assert(keyed_map(v) =~= m);
}

/// Replacing an item by one with the same key replaces it in the map.
pub proof fn lemma_keyed_update<T: Keyed>(v: Seq<T>, i: int, x: T)
    requires
        keys_distinct(v),
        0 <= i < v.len(),
        x.key() == v[i].key(),
    ensures
        keys_distinct(v.update(i, x)),
        keyed_map(v.update(i, x)) == keyed_map(v).insert(x.key(), x),
{
    let w = v.update(i, x);
    let m = keyed_map(v).insert(x.key(), x);
    assert forall|a: int, b: int| 0 <= a < b < w.len() implies w[a].key() != w[b].key() by {
        assert(v[a].key() != v[b].key());
    }
    assert forall|k: Seq<char>| #[trigger] m.contains_key(k) implies has_key(w, k) by {
        if k == x.key() {
            assert(w[i].key() == k);
        } else {
            let j = choose|j: int| 0 <= j < v.len() && #[trigger] v[j].key() == k;
            assert(w[j].key() == k);
        }
    }
    assert forall|a: int| 0 <= a < w.len() implies #[trigger] m.contains_key(w[a].key()) && m[w[a].key()]
        == w[a] by {
        if a != i {
            lemma_keyed_at(v, a);
            if a < i {
                assert(v[a].key() != v[i].key());
            } else {
                assert(v[i].key() != v[a].key());
            }
        }
    }
    lemma_keyed_equal(w, m);
}

/// Adding an item with a new key adds it to the map.
pub proof fn lemma_keyed_push<T: Keyed>(v: Seq<T>, x: T)
    requires
        keys_distinct(v),
        !has_key(v, x.key()),
    ensures
        keys_distinct(v.push(x)),
        keyed_map(v.push(x)) == keyed_map(v).insert(x.key(), x),
{
    let w = v.push(x);
    let m = keyed_map(v).insert(x.key(), x);
    assert forall|a: int, b: int| 0 <= a < b < w.len() implies w[a].key() != w[b].key() by {
        if b == v.len() {
            assert(w[a] == v[a]);
        } else {
            assert(v[a].key() != v[b].key());
        }
    }
    assert forall|k: Seq<char>| #[trigger] m.contains_key(k) implies has_key(w, k) by {
        if k == x.key() {
            assert(w[v.len() as int].key() == k);
        } else {
            let j = choose|j: int| 0 <= j < v.len() && #[trigger] v[j].key() == k;
            assert(w[j].key() == k);
        }
    }
    assert forall|a: int| 0 <= a < w.len() implies #[trigger] m.contains_key(w[a].key()) && m[w[a].key()]
        == w[a] by {
        if a < v.len() {
            lemma_keyed_at(v, a);
            assert(w[a] == v[a]);
            assert(v[a].key() != x.key());
        }
    }
    lemma_keyed_equal(w, m);
}

/// Removing an item removes its key from the map.
pub proof fn lemma_keyed_remove<T: Keyed>(v: Seq<T>, i: int)
    requires
        keys_distinct(v),
        0 <= i < v.len(),
    ensures
        keys_distinct(v.remove(i)),
        keyed_map(v.remove(i)) == keyed_map(v).remove(v[i].key()),
{
    let w = v.remove(i);
    let m = keyed_map(v).remove(v[i].key());
    assert forall|a: int, b: int| 0 <= a < b < w.len() implies w[a].key() != w[b].key() by {
        let oa = if a < i {
            a
        } else {
            a + 1
        };
        let ob = if b < i {
            b
        } else {
            b + 1
        };
        assert(w[a] == v[oa]);
        assert(w[b] == v[ob]);
        assert(v[oa].key() != v[ob].key());
    }
    assert forall|k: Seq<char>| #[trigger] m.contains_key(k) implies has_key(w, k) by {
        let j = choose|j: int| 0 <= j < v.len() && #[trigger] v[j].key() == k;
        assert(j != i);
        let nj = if j < i {
            j
        } else {
            j - 1
        };
        assert(w[nj] == v[j]);
    }
    assert forall|a: int| 0 <= a < w.len() implies #[trigger] m.contains_key(w[a].key()) && m[w[a].key()]
        == w[a] by {
        let oa = if a < i {
            a
        } else {
            a + 1
        };
        assert(w[a] == v[oa]);
        lemma_keyed_at(v, oa);
        if oa < i {
            assert(v[oa].key() != v[i].key());
        } else {
            assert(v[i].key() != v[oa].key());
        }
    }
    lemma_keyed_equal(w, m);
}

/// The map of distinct items is empty exactly when there are none.
pub proof fn lemma_keyed_empty<T: Keyed>(v: Seq<T>)
    requires
        keys_distinct(v),
    ensures
        (v.len() == 0) == (keyed_map(v) == Map::<Seq<char>, T>::empty()),
{
    if v.len() == 0 {
        assert(keyed_map(v) =~= Map::<Seq<char>, T>::empty());
    } else {
        lemma_keyed_at(v, 0);
        assert(!Map::<Seq<char>, T>::empty().contains_key(v[0].key()));
    }
}

/// The position of the item with key `k`, if any.
pub fn find_key<T: Keyed>(v: &Vec<T>, k: &str) -> (r: Option<usize>)
    ensures
        match r {
            Some(i) => i < v@.len() && v@[i as int].key() == k@,
            None => !has_key(v@, k@),
        },
{
    let mut i: usize = 0;
    while i < v.len()
        invariant
            i <= v@.len(),
            forall|j: int| 0 <= j < i ==> v@[j].key() != k@,
        decreases v@.len() - i,
    {
        if str_eq(v[i].key_str(), k) {
            return Some(i);
        }
        i = i + 1;
    }
    None
}

} // verus!

verus! {

/// The keys of `v`, in order.
pub open spec fn key_seq<T: Keyed>(v: Seq<T>) -> Seq<Seq<char>> {
    v.map_values(|x: T| x.key())
}

/// Distinct items make a map with as many keys as there are items.
pub proof fn lemma_keyed_len<T: Keyed>(v: Seq<T>)
    requires
        keys_distinct(v),
    ensures
        keyed_map(v).dom().len() == v.len(),
        keyed_map(v).dom().finite(),
{
    let ks = key_seq(v);
    assert(ks.no_duplicates()) by {
        assert forall|i: int, j: int| 0 <= i < ks.len() && 0 <= j < ks.len() && i != j implies ks[i]
            != ks[j] by {
            if i < j {
                assert(v[i].key() != v[j].key());
            } else {
                assert(v[j].key() != v[i].key());
            }
        }
    }
    ks.unique_seq_to_set();
    assert(keyed_map(v).dom() =~= ks.to_set()) by {
        assert forall|k: Seq<char>| #[trigger] keyed_map(v).dom().contains(k) == ks.to_set().contains(k) by {
            if has_key(v, k) {
                let j = choose|j: int| 0 <= j < v.len() && #[trigger] v[j].key() == k;
                assert(ks[j] == k);
            }
            if ks.contains(k) {
                let j = choose|j: int| 0 <= j < ks.len() && ks[j] == k;
                assert(v[j].key() == k);
            }
        }
    }
    ks.lemma_cardinality_of_set();
}

} // verus!
