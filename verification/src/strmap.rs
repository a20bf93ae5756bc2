//! An insertion-ordered map from string keys to values.
//!
//! Rows, configuration fields and template tables are maps keyed by text.
//! A lookup finds the first entry with the key; inserting an existing key
//! replaces that entry's value in place, a new key goes to the end. Maps built
//! only by inserting never hold a key twice (`wf`).
use vstd::prelude::*;
use crate::text::str_eq;

verus! {

/// The keys of an association sequence, in order.
pub open spec fn assoc_keys<V>(s: Seq<(Seq<char>, V)>) -> Seq<Seq<char>> {
    s.map_values(|e: (Seq<char>, V)| e.0)
}

/// No key occurs twice.
pub open spec fn keys_distinct<V>(s: Seq<(Seq<char>, V)>) -> bool {
    forall|i: int, j: int| 0 <= i < j < s.len() ==> s[i].0 != s[j].0
}

/// The key occurs in the association sequence.
pub open spec fn has_key<V>(s: Seq<(Seq<char>, V)>, k: Seq<char>) -> bool {
    exists|i: int| 0 <= i < s.len() && s[i].0 == k
}

/// `i` is where `k` first occurs.
pub open spec fn is_first_key<V>(s: Seq<(Seq<char>, V)>, k: Seq<char>, i: int) -> bool {
    &&& 0 <= i < s.len()
    &&& s[i].0 == k
    &&& forall|j: int| 0 <= j < i ==> s[j].0 != k
}

/// Where `k` first occurs.
pub open spec fn first_key_index<V>(s: Seq<(Seq<char>, V)>, k: Seq<char>) -> int {
    choose|i: int| is_first_key(s, k, i)
}

/// The value stored under `k`, if any: that of its first occurrence.
pub open spec fn lookup<V>(s: Seq<(Seq<char>, V)>, k: Seq<char>) -> Option<V> {
    if has_key(s, k) {
        Some(s[first_key_index(s, k)].1)
    } else {
        None
    }
}

/// The association sequence after inserting `(k, v)`: the first occurrence of
/// an existing key takes the new value, a new key is appended.
pub open spec fn assoc_insert<V>(s: Seq<(Seq<char>, V)>, k: Seq<char>, v: V) -> Seq<(Seq<char>, V)> {
    if has_key(s, k) {
        s.update(first_key_index(s, k), (k, v))
    } else {
        s.push((k, v))
    }
}

/// A key that occurs has a first occurrence.
pub proof fn lemma_first_key_exists<V>(s: Seq<(Seq<char>, V)>, k: Seq<char>)
    requires
        has_key(s, k),
    ensures
        is_first_key(s, k, first_key_index(s, k)),
    decreases s.len(),
{
    let t = s.drop_last();
    if has_key(t, k) {
        lemma_first_key_exists(t, k);
        let i = first_key_index(t, k);
        assert(s[i] == t[i]);
        assert forall|j: int| 0 <= j < i implies s[j].0 != k by {
            assert(s[j] == t[j]);
        }
        assert(is_first_key(s, k, i));
    } else {
        assert forall|j: int| 0 <= j < s.len() - 1 implies s[j].0 != k by {
            assert(s[j] == t[j]);
            assert(!(0 <= j < t.len() && t[j].0 == k));
        }
        let w = choose|w: int| 0 <= w < s.len() && s[w].0 == k;
        assert(w == s.len() - 1);
        assert(is_first_key(s, k, s.len() - 1));
    }
}

/// The first occurrence is unique.
pub proof fn lemma_first_key_unique<V>(s: Seq<(Seq<char>, V)>, k: Seq<char>, i: int)
    requires
        is_first_key(s, k, i),
    ensures
        has_key(s, k),
        first_key_index(s, k) == i,
        lookup(s, k) == Some(s[i].1),
{
    assert(0 <= i < s.len() && s[i].0 == k);
    lemma_first_key_exists(s, k);
    let f = first_key_index(s, k);
    if f < i {
        assert(s[f].0 != k);
    } else if f > i {
        assert(s[i].0 != k);
    }
}

/// With distinct keys, the entry at `i` is what `lookup` finds for its key.
pub proof fn lemma_lookup_at<V>(s: Seq<(Seq<char>, V)>, i: int)
    requires
        keys_distinct(s),
        0 <= i < s.len(),
    ensures
        has_key(s, s[i].0),
        lookup(s, s[i].0) == Some(s[i].1),
{
    assert forall|j: int| 0 <= j < i implies s[j].0 != s[i].0 by {}
    lemma_first_key_unique(s, s[i].0, i);
}

/// Inserting makes `lookup` answer the new value for `k` and the old one for
/// every other key, and keeps distinct keys distinct.
pub proof fn lemma_insert<V>(s: Seq<(Seq<char>, V)>, k: Seq<char>, v: V)
    ensures
        keys_distinct(s) ==> keys_distinct(assoc_insert(s, k, v)),
        lookup(assoc_insert(s, k, v), k) == Some(v),
        forall|k2: Seq<char>| #![trigger lookup(assoc_insert(s, k, v), k2)] k2 != k ==> lookup(assoc_insert(s, k, v), k2) == lookup(s, k2),
        has_key(s, k) ==> assoc_insert(s, k, v).len() == s.len(),
        !has_key(s, k) ==> assoc_insert(s, k, v).len() == s.len() + 1,
{
    let r = assoc_insert(s, k, v);
    if has_key(s, k) {
        lemma_first_key_exists(s, k);
        let i = first_key_index(s, k);
        assert(r == s.update(i, (k, v)));
        if keys_distinct(s) {
            assert forall|a: int, b: int| 0 <= a < b < r.len() implies r[a].0 != r[b].0 by {
                assert(s[a].0 != s[b].0);
            }
        }
        assert(is_first_key(r, k, i));
        lemma_first_key_unique(r, k, i);
        assert forall|k2: Seq<char>| #![trigger lookup(assoc_insert(s, k, v), k2)] k2 != k implies lookup(assoc_insert(s, k, v), k2) == lookup(s, k2) by {
            if has_key(s, k2) {
                lemma_first_key_exists(s, k2);
                let j = first_key_index(s, k2);
                assert(j != i);
                assert(is_first_key(r, k2, j));
                lemma_first_key_unique(r, k2, j);
            } else if has_key(r, k2) {
                let w = choose|w: int| 0 <= w < r.len() && r[w].0 == k2;
                assert(s[w].0 == k2);
            }
        }
    } else {
        assert(r == s.push((k, v)));
        if keys_distinct(s) {
            assert forall|a: int, b: int| 0 <= a < b < r.len() implies r[a].0 != r[b].0 by {
                if b == s.len() {
                    assert(!(0 <= a < s.len() && s[a].0 == k));
                } else {
                    assert(s[a].0 != s[b].0);
                }
            }
        }
        assert forall|j: int| 0 <= j < s.len() implies r[j].0 != k by {
            assert(!(0 <= j < s.len() && s[j].0 == k));
        }
        assert(is_first_key(r, k, s.len() as int));
        lemma_first_key_unique(r, k, s.len() as int);
        assert forall|k2: Seq<char>| #![trigger lookup(assoc_insert(s, k, v), k2)] k2 != k implies lookup(assoc_insert(s, k, v), k2) == lookup(s, k2) by {
            if has_key(s, k2) {
                lemma_first_key_exists(s, k2);
                let j = first_key_index(s, k2);
                assert(is_first_key(r, k2, j));
                lemma_first_key_unique(r, k2, j);
            } else if has_key(r, k2) {
                let w = choose|w: int| 0 <= w < r.len() && r[w].0 == k2;
                assert(w < s.len());
                assert(s[w].0 == k2);
            }
        }
    }
}

/// Growing a prefix by one entry adds exactly that entry's key.
pub proof fn lemma_has_key_take_step<V>(s: Seq<(Seq<char>, V)>, j: int, k: Seq<char>)
    requires
        0 <= j < s.len(),
    ensures
        has_key(s.take(j + 1), k) == (has_key(s.take(j), k) || s[j].0 == k),
{
    let t1 = s.take(j + 1);
    let t0 = s.take(j);
    if has_key(t1, k) {
        let i = choose|i: int| 0 <= i < t1.len() && t1[i].0 == k;
        if i < j {
            assert(t0[i].0 == k);
        }
    }
    if has_key(t0, k) {
        let i = choose|i: int| 0 <= i < t0.len() && t0[i].0 == k;
        assert(t1[i].0 == k);
    }
    if s[j].0 == k {
        assert(t1[j].0 == k);
    }
}

/// The text stored under `k`, if any.
pub open spec fn text_lookup(s: Seq<(Seq<char>, String)>, k: Seq<char>) -> Option<Seq<char>> {
    match lookup(s, k) {
        Some(v) => Some(v@),
        None => None,
    }
}

/// A map from text keys to values that remembers the order keys were added in.
pub struct StrMap<V> {
    entries: Vec<(String, V)>,
}

impl<V> View for StrMap<V> {
    type V = Seq<(Seq<char>, V)>;

    closed spec fn view(&self) -> Seq<(Seq<char>, V)> {
        self.entries@.map_values(|e: (String, V)| (e.0@, e.1))
    }
}

impl<V> StrMap<V> {
    /// Every key occurs once.
    pub open spec fn wf(&self) -> bool {
        keys_distinct(self@)
    }

    /// An empty map.
    pub fn new() -> (r: Self)
        ensures
            r@ == Seq::<(Seq<char>, V)>::empty(),
            r.wf(),
    {
        StrMap { entries: Vec::new() }
    }

    /// The number of entries.
    pub fn len(&self) -> (r: usize)
        ensures
            r == self@.len(),
    {
        self.entries.len()
    }

    /// Whether the map has no entries.
    pub fn is_empty(&self) -> (r: bool)
        ensures
            r == (self@.len() == 0),
    {
        self.entries.len() == 0
    }

    /// The key of the entry at position `i`.
    pub fn key_at(&self, i: usize) -> (r: &String)
        requires
            i < self@.len(),
        ensures
            r@ == self@[i as int].0,
    {
        &self.entries[i].0
    }

    /// The value of the entry at position `i`.
    pub fn value_at(&self, i: usize) -> (r: &V)
        requires
            i < self@.len(),
        ensures
            *r == self@[i as int].1,
    {
        &self.entries[i].1
    }

    /// The position of `k`, if it is a key.
    pub fn position(&self, k: &str) -> (r: Option<usize>)
        ensures
            match r {
                Some(i) => is_first_key(self@, k@, i as int),
                None => !has_key(self@, k@),
            },
    {
        let mut i: usize = 0;
        while i < self.entries.len()
            invariant
                i <= self@.len(),
                self@.len() == self.entries@.len(),
                forall|j: int| 0 <= j < i ==> self@[j].0 != k@,
            decreases self.entries.len() - i,
        {
            if str_eq(self.entries[i].0.as_str(), k) {
                return Some(i);
            }
            i = i + 1;
        }
        None
    }

    /// Whether `k` is a key.
    pub fn contains_key(&self, k: &str) -> (r: bool)
        ensures
            r == has_key(self@, k@),
    {
        self.position(k).is_some()
    }

    /// The value stored under `k`.
    pub fn get(&self, k: &str) -> (r: Option<&V>)
        ensures
            match r {
                Some(v) => lookup(self@, k@) == Some(*v),
                None => lookup(self@, k@).is_none(),
            },
    {
        match self.position(k) {
            Some(i) => {
                proof {
                    lemma_first_key_unique(self@, k@, i as int);
                }
                Some(&self.entries[i].1)
            },
            None => None,
        }
    }

    /// Stores `v` under `k`: an existing key keeps its position, a new one is appended.
    pub fn insert(&mut self, k: String, v: V)
        ensures
            final(self)@ == assoc_insert(old(self)@, k@, v),
            old(self).wf() ==> final(self).wf(),
    {
        proof {
            lemma_insert(self@, k@, v);
        }
        let ghost kv = k@;
        match self.position(k.as_str()) {
            Some(i) => {
                proof {
                    lemma_first_key_unique(self@, kv, i as int);
                }
                self.entries.set(i, (k, v));
                assert(self@ =~= assoc_insert(old(self)@, kv, v));
            },
            None => {
                self.entries.push((k, v));
                assert(self@ =~= assoc_insert(old(self)@, kv, v));
            },
        }
    }

    /// The keys, in order.
    pub fn keys(&self) -> (r: Vec<String>)
        ensures
            r@.map_values(|s: String| s@) == assoc_keys(self@),
    {
        let mut r: Vec<String> = Vec::new();
        let mut i: usize = 0;
        while i < self.entries.len()
            invariant
                i <= self@.len(),
                self@.len() == self.entries@.len(),
                r@.len() == i,
                forall|j: int| 0 <= j < i ==> r@[j]@ == #[trigger] self@[j].0,
            decreases self.entries.len() - i,
        {
            r.push(self.entries[i].0.clone());
            i = i + 1;
        }
        assert(r@.map_values(|s: String| s@) =~= assoc_keys(self@));
        r
    }
}

/// The view of a list of entries.
pub open spec fn entries_view<V>(e: Seq<(String, V)>) -> Seq<(Seq<char>, V)> {
    e.map_values(|x: (String, V)| (x.0@, x.1))
}

impl<V> StrMap<V> {
    /// A map holding `entries`, whose keys are distinct, in their order.
    pub fn from_entries(entries: Vec<(String, V)>) -> (r: Self)
        ensures
            r@ == entries_view(entries@),
    {
        let r = StrMap { entries };
        assert(r@ =~= entries_view(r.entries@));
        r
    }
}

impl StrMap<String> {
    /// A copy with the same entries.
    pub fn copy(&self) -> (r: Self)
        ensures
            r@ == self@,
    {
        let mut entries: Vec<(String, String)> = Vec::new();
        let mut i: usize = 0;
        while i < self.entries.len()
            invariant
                i <= self.entries@.len(),
                entries@.len() == i,
                forall|j: int| 0 <= j < i ==> #[trigger] entries@[j] == self.entries@[j],
            decreases self.entries.len() - i,
        {
            let k = self.entries[i].0.clone();
            let v = self.entries[i].1.clone();
            entries.push((k, v));
            i = i + 1;
        }
        let r = StrMap { entries };
        assert(r.entries@ =~= self.entries@);
        r
    }
}

} // verus!
