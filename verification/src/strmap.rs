//! `StrMap` — an ordered map keyed by strings.
//!
//! Entries are kept strictly sorted by key (lexicographic by character), so
//! iteration order is the key order and every key occurs once. This is the
//! ordered-map shape the configuration, the field maps and JSON objects use.

use vstd::prelude::*;

use crate::text::{
    lemma_less_asymmetric, lemma_less_irreflexive, lemma_less_total, lemma_less_transitive,
    seq_less, str_eq, str_less,
};

verus! {

/// Keys in strictly increasing order.
pub open spec fn keys_sorted(keys: Seq<Seq<char>>) -> bool {
    forall|i: int, j: int| 0 <= i < j < keys.len() ==> seq_less(#[trigger] keys[i], #[trigger] keys[j])
}

/// An ordered map from string keys to values.
#[derive(Debug)]
pub struct StrMap<V> {
    pub(crate) entries: Vec<(String, V)>,
}

impl<V> StrMap<V> {
    /// The entries in key order.
    pub closed spec fn entries(self) -> Seq<(String, V)> {
        self.entries@
    }

    /// The keys in order, as character sequences.
    pub open spec fn keys(self) -> Seq<Seq<char>> {
        self.entries().map_values(|e: (String, V)| e.0@)
    }

    /// The values in key order.
    pub open spec fn values(self) -> Seq<V> {
        self.entries().map_values(|e: (String, V)| e.1)
    }

    /// Number of entries.
    pub open spec fn spec_len(self) -> nat {
        self.entries().len()
    }

    #[verifier::type_invariant]
    closed spec fn inv(self) -> bool {
        keys_sorted(self.keys())
    }

    /// The position of `k` among the keys, if present.
    pub open spec fn index_of(self, k: Seq<char>) -> Option<int> {
        if exists|i: int| 0 <= i < self.spec_len() && self.keys()[i] == k {
            Some(choose|i: int| 0 <= i < self.spec_len() && self.keys()[i] == k)
        } else {
            None
        }
    }

    /// The value stored under `k`, if any.
    pub open spec fn spec_get(self, k: Seq<char>) -> Option<V> {
        match self.index_of(k) {
            Some(i) => Some(self.values()[i]),
            None => None,
        }
    }

    /// True when `k` is a key.
    pub open spec fn has_key(self, k: Seq<char>) -> bool {
        self.keys().contains(k)
    }

    /// An empty map.
    pub fn new() -> (r: Self)
        ensures
            r.spec_len() == 0,
    {
        StrMap { entries: Vec::new() }
    }

    /// Number of entries. Also states that the keys are strictly sorted,
    /// which every caller iterating the map relies on.
    pub fn len(&self) -> (n: usize)
        ensures
            n == self.spec_len(),
            keys_sorted(self.keys()),
    {
        proof {
            use_type_invariant(self);
        }
        self.entries.len()
    }

    /// True when the map holds no entry.
    pub fn is_empty(&self) -> (r: bool)
        ensures
            r == (self.spec_len() == 0),
    {
        self.entries.len() == 0
    }

    /// The key and value at position `i` in key order.
    pub fn entry_at(&self, i: usize) -> (r: (&String, &V))
        requires
            i < self.spec_len(),
        ensures
            *r.0 == self.entries()[i as int].0,
            *r.1 == self.entries()[i as int].1,
            keys_sorted(self.keys()),
    {
        proof {
            use_type_invariant(self);
        }
        let e = &self.entries[i];
        (&e.0, &e.1)
    }

    /// Position of `k`, if it is a key.
    pub fn find(&self, k: &str) -> (r: Option<usize>)
        ensures
            match r {
                Some(i) => i < self.spec_len() && self.keys()[i as int] == k@,
                None => !self.has_key(k@),
            },
            r matches Some(i) ==> self.index_of(k@) == Some(i as int),
            r is None ==> self.index_of(k@) is None,
            keys_sorted(self.keys()),
    {
        proof {
            use_type_invariant(self);
        }
        let n = self.entries.len();
        let mut i: usize = 0;
        while i < n
            invariant
                n == self.spec_len(),
                i <= n,
                keys_sorted(self.keys()),
                forall|j: int| 0 <= j < i ==> self.keys()[j] != k@,
            decreases n - i,
        {
            if str_eq(self.entries[i].0.as_str(), k) {
                proof {
                    assert(self.keys()[i as int] == k@);
                    self.lemma_get_by_index(i as int);
                }
                return Some(i);
            }
            i = i + 1;
        }
        proof {
            if self.has_key(k@) {
                let j = choose|j: int| 0 <= j < self.keys().len() && self.keys()[j] == k@;
                assert(self.keys()[j] == k@);
            }
        }
        None
    }

    /// The value stored under `k`, if any.
    pub fn get(&self, k: &str) -> (r: Option<&V>)
        ensures
            match r {
                Some(v) => self.spec_get(k@) == Some(*v),
                None => self.spec_get(k@) is None,
            },
            r is Some <==> self.has_key(k@),
    {
        match self.find(k) {
            Some(i) => Some(&self.entries[i].1),
            None => None,
        }
    }

    /// True when `k` is a key.
    pub fn contains_key(&self, k: &str) -> (r: bool)
        ensures
            r == self.has_key(k@),
    {
        self.find(k).is_some()
    }

    /// Stores `v` under `k`, replacing (and returning) any previous value.
    pub fn insert(&mut self, k: String, v: V) -> (r: Option<V>)
        ensures
            r == old(self).spec_get(k@),
            final(self).has_key(k@),
            final(self).spec_get(k@) == Some(v),
            forall|q: Seq<char>| q != k@ ==> final(self).spec_get(q) == old(self).spec_get(q),
            forall|q: Seq<char>| q != k@ ==> (final(self).has_key(q) == old(self).has_key(q)),
            old(self).has_key(k@) ==> final(self).spec_len() == old(self).spec_len(),
            !old(self).has_key(k@) ==> final(self).spec_len() == old(self).spec_len() + 1,
    {
        proof {
            use_type_invariant(&*self);
        }
        let ghost old_keys = self.keys();
        let n = self.entries.len();
        let mut i: usize = 0;
        while i < n && str_less(self.entries[i].0.as_str(), k.as_str())
            invariant
                n == self.spec_len(),
                i <= n,
                old_keys == self.keys(),
                keys_sorted(old_keys),
                forall|j: int| 0 <= j < i ==> seq_less(old_keys[j], k@),
            decreases n - i,
        {
            i = i + 1;
        }
        // Every key before `i` is smaller than `k`; every key from `i` on is not.
        assert forall|j: int| i <= j < n implies !seq_less(old_keys[j], k@) by {
            if i < n && j > i {
                lemma_less_asymmetric(old_keys[i as int], old_keys[j]);
                if seq_less(old_keys[j], k@) {
                    lemma_less_transitive(old_keys[i as int], old_keys[j], k@);
                }
            }
        }
        if i < n && str_eq(self.entries[i].0.as_str(), k.as_str()) {
            let ghost old_self = *self;
            let (_, prev) = self.replace_value(i, v);
            proof {
                assert(old_self.keys()[i as int] == k@);
                let c = choose|j: int| 0 <= j < old_self.spec_len() && old_self.keys()[j] == k@;
                if c != i {
                    if c < i {
                        lemma_less_irreflexive(k@);
                    } else {
                        lemma_less_transitive(k@, old_keys[c], k@);
                        lemma_less_irreflexive(k@);
                    }
                }
                assert(self.keys() =~= old_keys);
                self.lemma_get_by_index(i as int);
                assert forall|q: Seq<char>| q != k@ implies self.spec_get(q) == old_self.spec_get(q) by {
                    if self.has_key(q) {
                        let d = choose|j: int| 0 <= j < self.spec_len() && self.keys()[j] == q;
                        self.lemma_get_by_index(d);
                        old_self.lemma_get_by_index_plain(d, old_keys);
                    } else {
                        assert(!old_self.has_key(q));
                    }
                }
            }
            Some(prev)
        } else {
            proof {
                if i < n {
                    lemma_less_total(old_keys[i as int], k@);
                }
                assert(!old_keys.contains(k@)) by {
                    if old_keys.contains(k@) {
                        let j = choose|j: int| 0 <= j < old_keys.len() && old_keys[j] == k@;
                        if j < i {
                            lemma_less_irreflexive(k@);
                        } else if j > i {
                            lemma_less_transitive(k@, old_keys[i as int], k@);
                            lemma_less_irreflexive(k@);
                        }
                    }
                }
            }
            let ghost old_self = *self;
            proof {
                assert forall|j: int| i <= j < n implies seq_less(k@, old_keys[j]) by {
                    lemma_less_total(old_keys[j], k@);
                    assert(old_keys[j] != k@);
                }
            }
            self.insert_at(i, k, v);
            proof {
                use_type_invariant(&*self);
                assert(self.keys() =~= old_keys.insert(i as int, self.keys()[i as int]));
                self.lemma_get_by_index(i as int);
                assert forall|q: Seq<char>| q != self.keys()[i as int] implies self.spec_get(q) == old_self.spec_get(q) && (self.has_key(q) == old_self.has_key(q)) by {
                    if self.has_key(q) {
                        let d = choose|j: int| 0 <= j < self.spec_len() && self.keys()[j] == q;
                        self.lemma_get_by_index(d);
                        let od = if d < i { d } else { d - 1 };
                        assert(old_keys[od] == q);
                        old_self.lemma_get_by_index_plain(od, old_keys);
                    } else {
                        if old_self.has_key(q) {
                            let od = choose|j: int| 0 <= j < old_keys.len() && old_keys[j] == q;
                            let d = if od < i { od } else { od + 1 };
                            assert(self.keys()[d] == q);
                        }
                    }
                }
            }
            None
        }
    }

    fn replace_value(&mut self, i: usize, v: V) -> (r: (usize, V))
        requires
            i < old(self).spec_len(),
        ensures
            final(self).keys() == old(self).keys(),
            final(self).spec_len() == old(self).spec_len(),
            final(self).entries()[i as int].1 == v,
            forall|j: int| 0 <= j < old(self).spec_len() && j != i ==> final(self).entries()[j] == old(self).entries()[j],
            final(self).entries()[i as int].0 == old(self).entries()[i as int].0,
            r.1 == old(self).entries()[i as int].1,
    {
        proof {
            use_type_invariant(&*self);
        }
        let mut entries: Vec<(String, V)> = Vec::new();
        std::mem::swap(&mut entries, &mut self.entries);
        let (key, prev) = entries.remove(i);
        entries.insert(i, (key, v));
        assert(entries@.map_values(|e: (String, V)| e.0@) =~= old(self).keys());
        self.entries = entries;
        (i, prev)
    }

    fn insert_at(&mut self, i: usize, k: String, v: V)
        requires
            i <= old(self).spec_len(),
            forall|j: int| 0 <= j < i ==> seq_less(old(self).keys()[j], k@),
            forall|j: int| i <= j < old(self).spec_len() ==> seq_less(k@, old(self).keys()[j]),
        ensures
            final(self).entries() == old(self).entries().insert(i as int, (k, v)),
    {
        proof {
            use_type_invariant(&*self);
        }
        let ghost old_keys = self.keys();
        let ghost kv = k@;
        let mut entries: Vec<(String, V)> = Vec::new();
        std::mem::swap(&mut entries, &mut self.entries);
        entries.insert(i, (k, v));
        proof {
            let nk = entries@.map_values(|e: (String, V)| e.0@);
            assert(nk =~= old_keys.insert(i as int, kv));
            assert forall|a: int, b: int| 0 <= a < b < nk.len() implies seq_less(#[trigger] nk[a], #[trigger] nk[b]) by {
                if a < i && b < i {
                } else if a < i && b == i {
                } else if a < i && b > i {
                    assert(nk[b] == old_keys[b - 1]);
                } else if a == i {
                    assert(nk[b] == old_keys[b - 1]);
                } else {
                    assert(nk[a] == old_keys[a - 1]);
                    assert(nk[b] == old_keys[b - 1]);
                }
            }
        }
        self.entries = entries;
    }

    /// The lookup of the key at position `d` finds the value at position `d`.
    pub proof fn lemma_get_by_index(self, d: int)
        requires
            0 <= d < self.spec_len(),
            keys_sorted(self.keys()),
        ensures
            self.has_key(self.keys()[d]),
            self.index_of(self.keys()[d]) == Some(d),
            self.spec_get(self.keys()[d]) == Some(self.values()[d]),
    {
        self.lemma_get_by_index_plain(d, self.keys());
    }

    proof fn lemma_get_by_index_plain(self, d: int, ks: Seq<Seq<char>>)
        requires
            0 <= d < self.spec_len(),
            ks == self.keys(),
            keys_sorted(ks),
        ensures
            self.has_key(ks[d]),
            self.index_of(ks[d]) == Some(d),
            self.spec_get(ks[d]) == Some(self.values()[d]),
    {
        let k = ks[d];
        assert(0 <= d < self.spec_len() && self.keys()[d] == k);
        assert(exists|i: int| 0 <= i < self.spec_len() && self.keys()[i] == k);
        let c = self.index_of(k)->0;
        assert(0 <= c < self.spec_len() && self.keys()[c] == k);
        assert(c == d) by {
            if c < d {
                assert(seq_less(ks[c], ks[d]));
                lemma_less_irreflexive(k);
            } else if c > d {
                assert(seq_less(ks[d], ks[c]));
                lemma_less_irreflexive(k);
            }
        }
        assert(self.keys().contains(k));
    }
}


impl StrMap<String> {
    /// A copy of a string-valued map.
    pub fn clone_strings(&self) -> (r: Self)
        ensures
            r.entries() == self.entries(),
    {
        proof {
            use_type_invariant(self);
        }
        let mut entries: Vec<(String, String)> = Vec::new();
        let mut i: usize = 0;
        while i < self.entries.len()
            invariant
                i <= self.entries@.len(),
                entries@ == self.entries@.take(i as int),
            decreases self.entries@.len() - i,
        {
            let e = &self.entries[i];
            entries.push((e.0.clone(), e.1.clone()));
            assert(entries@ =~= self.entries@.take(i + 1));
            i = i + 1;
        }
        assert(self.entries@.take(self.entries@.len() as int) =~= self.entries@);
        StrMap { entries }
    }
}


impl<V> StrMap<V> {
    /// A map holding exactly `entries`, whose keys are already in order.
    pub(crate) fn from_sorted_entries(entries: Vec<(String, V)>) -> (r: Self)
        requires
            keys_sorted(entries@.map_values(|e: (String, V)| e.0@)),
        ensures
            r.entries() == entries@,
    {
        StrMap { entries }
    }
}


impl<V> StrMap<V> {
    /// Inside the crate, the entries are the backing vector's contents.
    pub(crate) proof fn lemma_entries(self)
        ensures
            self.entries() == self.entries@,
    {
    }
}


impl<V> StrMap<V> {
    /// The keys, in order.
    pub fn key_strings(&self) -> (r: Vec<String>)
        ensures
            crate::text::string_views(r@) == self.keys(),
            keys_sorted(self.keys()),
    {
        proof {
            use_type_invariant(self);
        }
        let mut out: Vec<String> = Vec::new();
        let mut i: usize = 0;
        while i < self.entries.len()
            invariant
                i <= self.entries@.len(),
                crate::text::string_views(out@) == self.keys().take(i as int),
            decreases self.entries@.len() - i,
        {
            let ghost before = out@;
            let k = self.entries[i].0.clone();
            out.push(k);
            proof {
                assert(crate::text::string_views(out@) =~= crate::text::string_views(before).push(k@));
                assert(self.keys().take(i + 1) =~= self.keys().take(i as int).push(self.entries@[i as int].0@));
            }
            i = i + 1;
        }
        assert(self.keys().take(self.keys().len() as int) =~= self.keys());
        out
    }
}

} // verus!
