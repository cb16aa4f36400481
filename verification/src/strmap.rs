//! A map keyed by strings, stored as a vector of entries whose keys are
//! pairwise distinct.  Its view is a `Map` from the keys' characters to the
//! values' views; the order of the entries is the order of insertion and
//! carries no meaning, as with the hash maps this type stands for.
use vstd::prelude::*;
use crate::text::str_eq;

verus! {

/// Map from keys to values, read from a sequence of entries: a key's value is
/// the value of an entry with that key.
pub open spec fn entries_view<V: View>(s: Seq<(String, V)>) -> Map<Seq<char>, V::V> {
    Map::new(
        |k: Seq<char>| exists|i: int| 0 <= i < s.len() && #[trigger] s[i].0@ == k,
        |k: Seq<char>| s[choose|i: int| 0 <= i < s.len() && #[trigger] s[i].0@ == k].1@,
    )
}

/// No two entries share a key.
pub open spec fn entries_distinct<V>(s: Seq<(String, V)>) -> bool {
    forall|i: int, j: int| 0 <= i < s.len() && 0 <= j < s.len() && i != j ==> s[i].0@ != s[j].0@
}

/// With distinct keys, each entry is what the view holds for its key.
pub proof fn lemma_entries_view<V: View>(s: Seq<(String, V)>)
    requires
        entries_distinct(s),
    ensures
        forall|i: int|
            0 <= i < s.len() ==> #[trigger] entries_view(s).contains_key(s[i].0@) && entries_view(
                s,
            )[s[i].0@] == s[i].1@,
{
    assert forall|i: int| 0 <= i < s.len() implies #[trigger] entries_view(s).contains_key(s[i].0@)
        && entries_view(s)[s[i].0@] == s[i].1@ by {
        let k = s[i].0@;
        assert(exists|j: int| 0 <= j < s.len() && #[trigger] s[j].0@ == k);
        let c = choose|j: int| 0 <= j < s.len() && #[trigger] s[j].0@ == k;
        assert(c == i);
    }
}

/// A string-keyed map with distinct keys.
pub struct StrMap<V> {
    entries: Vec<(String, V)>,
}

impl<V: View> View for StrMap<V> {
    type V = Map<Seq<char>, V::V>;

    closed spec fn view(&self) -> Map<Seq<char>, V::V> {
        entries_view(self.entries@)
    }
}

impl<V> StrMap<V> {
    #[verifier::type_invariant]
    spec fn keys_are_distinct(self) -> bool {
        entries_distinct(self.entries@)
    }
}

impl<V: View> StrMap<V> {
    /// The keys, in storage order.
    pub closed spec fn keys(self) -> Seq<Seq<char>> {
        self.entries@.map_values(|e: (String, V)| e.0@)
    }

    /// The values' views, in storage order.
    pub closed spec fn vals(self) -> Seq<V::V> {
        self.entries@.map_values(|e: (String, V)| e.1@)
    }

    /// The number of entries.
    pub closed spec fn spec_len(self) -> nat {
        self.entries@.len()
    }

    /// The keys, values and view agree: the `i`-th key maps to the `i`-th
    /// value, every key of the view is among the keys, and keys and values
    /// have as many elements as the map has entries.
    pub open spec fn consistent(self) -> bool {
        &&& self.keys().len() == self.spec_len()
        &&& self.vals().len() == self.spec_len()
        &&& forall|i: int|
            #![trigger self.keys()[i]]
            #![trigger self.vals()[i]]
            0 <= i < self.spec_len() ==> self@.contains_key(self.keys()[i]) && self@[self.keys()[i]]
                == self.vals()[i]
        &&& forall|k: Seq<char>| #[trigger]
            self@.contains_key(k) ==> exists|i: int|
                0 <= i < self.spec_len() && #[trigger] self.keys()[i] == k
        &&& forall|i: int, j: int|
            0 <= i < self.spec_len() && 0 <= j < self.spec_len() && i != j ==> self.keys()[i]
                != self.keys()[j]
    }

    /// Every map satisfies `consistent`.
    pub fn lemma_consistent(&self)
        ensures
            self.consistent(),
    {
        proof {
            use_type_invariant(self);
            lemma_entries_view(self.entries@);
            assert forall|k: Seq<char>| #[trigger] self@.contains_key(k) implies exists|i: int|
                0 <= i < self.spec_len() && #[trigger] self.keys()[i] == k by {
                let i = choose|i: int| 0 <= i < self.entries@.len() && #[trigger] self.entries@[i].0@ == k;
                assert(self.keys()[i] == k);
            }
        }
    }

    /// An empty map.
    pub fn new() -> (m: Self)
        ensures
            m@ == Map::<Seq<char>, V::V>::empty(),
            m.spec_len() == 0,
    {
        let m = StrMap { entries: Vec::new() };
        assert(m@ =~= Map::<Seq<char>, V::V>::empty());
        m
    }

    /// The number of entries.
    pub fn len(&self) -> (n: usize)
        ensures
            n == self.spec_len(),
    {
        self.entries.len()
    }

    /// The position of `k` among the entries.
    fn find(&self, k: &str) -> (r: Option<usize>)
        ensures
            r matches Some(i) ==> i < self.spec_len() && self.entries@[i as int].0@ == k@
                && self@.contains_key(k@) && self@[k@] == self.entries@[i as int].1@,
            r is None ==> !self@.contains_key(k@),
    {
        proof {
            use_type_invariant(self);
            lemma_entries_view(self.entries@);
        }
        let mut i: usize = 0;
        while i < self.entries.len()
            invariant
                i <= self.entries@.len(),
                entries_distinct(self.entries@),
                forall|j: int| 0 <= j < i ==> #[trigger] self.entries@[j].0@ != k@,
            decreases self.entries@.len() - i,
        {
            if str_eq(self.entries[i].0.as_str(), k) {
                proof {
                    lemma_entries_view(self.entries@);
                }
                return Some(i);
            }
            i = i + 1;
        }
        None
    }

    /// Whether `k` has an entry.
    pub fn contains_key(&self, k: &str) -> (b: bool)
        ensures
            b == self@.contains_key(k@),
    {
        self.find(k).is_some()
    }

    /// The value stored under `k`.
    pub fn get(&self, k: &str) -> (r: Option<&V>)
        ensures
            match r {
                Some(v) => self@.contains_key(k@) && v@ == self@[k@],
                None => !self@.contains_key(k@),
            },
    {
        match self.find(k) {
            Some(i) => Some(&self.entries[i].1),
            None => None,
        }
    }

    /// The `i`-th entry in storage order.
    pub fn entry_at(&self, i: usize) -> (r: (&String, &V))
        requires
            i < self.spec_len(),
        ensures
            r.0@ == self.keys()[i as int],
            r.1@ == self.vals()[i as int],
    {
        let e = &self.entries[i];
        (&e.0, &e.1)
    }

    /// Stores `v` under `k`, replacing what was there.
    pub fn insert(&mut self, k: String, v: V)
        ensures
            final(self)@ == old(self)@.insert(k@, v@),
            old(self)@.contains_key(k@) ==> final(self).spec_len() == old(self).spec_len(),
            !old(self)@.contains_key(k@) ==> final(self).spec_len() == old(self).spec_len() + 1,
    {
        proof {
            use_type_invariant(&*self);
            lemma_entries_view(self.entries@);
        }
        let ghost old_entries = self.entries@;
        let ghost kv = k@;
        let ghost vv = v@;
        match self.find(k.as_str()) {
            Some(i) => {
                let mut es: Vec<(String, V)> = Vec::new();
                std::mem::swap(&mut es, &mut self.entries);
                es.set(i, (k, v));
                proof {
                    let s = es@;
                    assert(s == old_entries.update(i as int, s[i as int]));
                    assert(entries_distinct(s));
                }
                self.entries = es;
                proof {
                    let s = self.entries@;
                    lemma_entries_view(s);
                    assert(self@ =~= entries_view(old_entries).insert(kv, vv)) by {
                        assert forall|key: Seq<char>| #[trigger]
                            entries_view(s).contains_key(key) == entries_view(
                                old_entries,
                            ).insert(kv, vv).contains_key(key) by {
                            if entries_view(s).contains_key(key) {
                                let j = choose|j: int| 0 <= j < s.len() && #[trigger] s[j].0@ == key;
                                if j != i {
                                    assert(old_entries[j].0@ == key);
                                }
                            }
                            if entries_view(old_entries).contains_key(key) {
                                let j = choose|j: int|
                                    0 <= j < old_entries.len() && #[trigger] old_entries[j].0@ == key;
                                assert(s[j].0@ == key);
                            }
                        }
                        assert forall|key: Seq<char>| #[trigger]
                            entries_view(s).contains_key(key) implies entries_view(s)[key]
                            == entries_view(old_entries).insert(kv, vv)[key] by {
                            let j = choose|j: int| 0 <= j < s.len() && #[trigger] s[j].0@ == key;
                            if j != i {
                                assert(old_entries[j] == s[j]);
                            }
                        }
                    }
                }
            },
            None => {
                let mut es: Vec<(String, V)> = Vec::new();
                std::mem::swap(&mut es, &mut self.entries);
                es.push((k, v));
                proof {
                    let s = es@;
                    assert(s == old_entries.push(s[s.len() - 1]));
                    assert(entries_distinct(s)) by {
                        assert forall|a: int, b: int|
                            0 <= a < s.len() && 0 <= b < s.len() && a != b implies s[a].0@
                            != s[b].0@ by {
                            if a < old_entries.len() && b < old_entries.len() {
                                assert(old_entries[a] == s[a] && old_entries[b] == s[b]);
                            } else if a < old_entries.len() {
                                assert(old_entries[a] == s[a]);
                                assert(entries_view(old_entries).contains_key(old_entries[a].0@));
                            } else {
                                assert(old_entries[b] == s[b]);
                                assert(entries_view(old_entries).contains_key(old_entries[b].0@));
                            }
                        }
                    }
                }
                self.entries = es;
                proof {
                    let s = self.entries@;
                    lemma_entries_view(s);
                    assert(self@ =~= entries_view(old_entries).insert(kv, vv)) by {
                        assert forall|key: Seq<char>| #[trigger]
                            entries_view(s).contains_key(key) == entries_view(
                                old_entries,
                            ).insert(kv, vv).contains_key(key) by {
                            if key == kv {
                                assert(s[s.len() - 1].0@ == kv);
                            }
                            if entries_view(s).contains_key(key) {
                                let j = choose|j: int| 0 <= j < s.len() && #[trigger] s[j].0@ == key;
                                if j < old_entries.len() {
                                    assert(old_entries[j] == s[j]);
                                }
                            }
                            if entries_view(old_entries).contains_key(key) {
                                let j = choose|j: int|
                                    0 <= j < old_entries.len() && #[trigger] old_entries[j].0@ == key;
                                assert(s[j] == old_entries[j]);
                            }
                        }
                        assert forall|key: Seq<char>| #[trigger]
                            entries_view(s).contains_key(key) implies entries_view(s)[key]
                            == entries_view(old_entries).insert(kv, vv)[key] by {
                            let j = choose|j: int| 0 <= j < s.len() && #[trigger] s[j].0@ == key;
                            if j < old_entries.len() {
                                assert(old_entries[j] == s[j]);
                                assert(entries_view(old_entries).contains_key(key));
                            }
                        }
                    }
                }
            },
        }
    }

    /// Takes the value stored under `k` out of the map.
    pub fn remove(&mut self, k: &str) -> (r: Option<V>)
        ensures
            final(self)@ == old(self)@.remove(k@),
            match r {
                Some(v) => old(self)@.contains_key(k@) && v@ == old(self)@[k@] && final(self).spec_len()
                    + 1 == old(self).spec_len(),
                None => !old(self)@.contains_key(k@) && final(self).spec_len() == old(self).spec_len(),
            },
    {
        proof {
            use_type_invariant(&*self);
            lemma_entries_view(self.entries@);
        }
        let ghost old_entries = self.entries@;
        match self.find(k) {
            Some(i) => {
                let mut es: Vec<(String, V)> = Vec::new();
                std::mem::swap(&mut es, &mut self.entries);
                let (_key, v) = es.remove(i);
                proof {
                    let s = es@;
                    assert(s == old_entries.remove(i as int));
                    assert(entries_distinct(s)) by {
                        assert forall|a: int, b: int|
                            0 <= a < s.len() && 0 <= b < s.len() && a != b implies s[a].0@
                            != s[b].0@ by {
                            let a2 = if a < i { a } else { a + 1 };
                            let b2 = if b < i { b } else { b + 1 };
                            assert(s[a] == old_entries[a2] && s[b] == old_entries[b2]);
                        }
                    }
                }
                self.entries = es;
                proof {
                    let s = self.entries@;
                    assert(s == old_entries.remove(i as int));
                    lemma_entries_view(s);
                    assert(self@ =~= entries_view(old_entries).remove(k@)) by {
                        assert forall|key: Seq<char>| #[trigger]
                            entries_view(s).contains_key(key) == entries_view(
                                old_entries,
                            ).remove(k@).contains_key(key) by {
                            if entries_view(s).contains_key(key) {
                                let j = choose|j: int| 0 <= j < s.len() && #[trigger] s[j].0@ == key;
                                let j2 = if j < i { j } else { j + 1 };
                                assert(s[j] == old_entries[j2]);
                            }
                            if entries_view(old_entries).remove(k@).contains_key(key) {
                                let j = choose|j: int|
                                    0 <= j < old_entries.len() && #[trigger] old_entries[j].0@ == key;
                                assert(j != i);
                                let j2 = if j < i { j } else { j - 1 };
                                assert(s[j2] == old_entries[j]);
                            }
                        }
                        assert forall|key: Seq<char>| #[trigger]
                            entries_view(s).contains_key(key) implies entries_view(s)[key]
                            == entries_view(old_entries).remove(k@)[key] by {
                            let j = choose|j: int| 0 <= j < s.len() && #[trigger] s[j].0@ == key;
                            let j2 = if j < i { j } else { j + 1 };
                            assert(s[j] == old_entries[j2]);
                        }
                    }
                }
                Some(v)
            },
            None => {
                proof {
                    assert(entries_view(old_entries).remove(k@) =~= entries_view(old_entries));
                }
                None
            },
        }
    }
}

} // verus!
