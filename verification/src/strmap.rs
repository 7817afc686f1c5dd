//! A map keyed by strings, kept as a list of distinct keys in insertion
//! order.

use vstd::prelude::*;

use crate::toml_doc::strs_view;

verus! {

/// A map from strings to values; iteration follows insertion order.
#[derive(Debug)]
pub struct StrMap<V> {
    entries: Vec<(String, V)>,
}

impl<V> StrMap<V> {
    #[verifier::type_invariant]
    spec fn keys_distinct(self) -> bool {
        self.key_list().no_duplicates()
    }

    /// The keys, in insertion order.
    pub closed spec fn key_list(self) -> Seq<Seq<char>> {
        self.entries@.map_values(|e: (String, V)| e.0@)
    }

    /// The value stored under the `i`-th key.
    pub closed spec fn value_at(self, i: int) -> V {
        self.entries@[i].1
    }

    /// Whether `k` is a key.
    pub open spec fn has(self, k: Seq<char>) -> bool {
        self.key_list().contains(k)
    }

    /// The value stored under `k`.
    pub open spec fn value_of(self, k: Seq<char>) -> V {
        self.value_at(choose|i: int| 0 <= i < self.key_list().len() && self.key_list()[i] == k)
    }

    proof fn lemma_value_of(self, i: int)
        requires
            self.keys_distinct(),
            0 <= i < self.key_list().len(),
        ensures
            self.value_of(self.key_list()[i]) == self.value_at(i),
            self.has(self.key_list()[i]),
    {
        let k = self.key_list()[i];
        let j = choose|j: int| 0 <= j < self.key_list().len() && self.key_list()[j] == k;
        assert(self.key_list()[i] == k);
    }

    /// An empty map.
    pub fn new() -> (r: Self)
        ensures
            r.key_list() == Seq::<Seq<char>>::empty(),
    {
        let r = StrMap { entries: Vec::new() };
        assert(r.key_list() =~= Seq::<Seq<char>>::empty());
        r
    }

    /// Number of keys.
    pub fn len(&self) -> (r: usize)
        ensures
            r == self.key_list().len(),
    {
        self.entries.len()
    }

    /// Whether there are no keys.
    pub fn is_empty(&self) -> (r: bool)
        ensures
            r == (self.key_list().len() == 0),
    {
        self.entries.len() == 0
    }

    /// Position of key `k`.
    fn find(&self, k: &str) -> (r: Option<usize>)
        ensures
            r is None <==> !self.has(k@),
            r matches Some(i) ==> i < self.key_list().len() && self.key_list()[i as int] == k@,
    {
        let mut i: usize = 0;
        while i < self.entries.len()
            invariant
                i <= self.entries@.len(),
                forall|j: int| 0 <= j < i ==> self.key_list()[j] != k@,
            decreases self.entries@.len() - i,
        {
            if crate::domain::string_eq(&self.entries[i].0, k) {
                assert(self.key_list()[i as int] == k@);
                return Some(i);
            }
            i = i + 1;
        }
        proof {
            if self.has(k@) {
                let j = choose|j: int| 0 <= j < self.key_list().len() && self.key_list()[j] == k@;
                assert(self.key_list()[j] == k@);
            }
        }
        None
    }

    /// Whether `k` is a key.
    pub fn contains_key(&self, k: &str) -> (r: bool)
        ensures
            r == self.has(k@),
    {
        self.find(k).is_some()
    }

    /// The value under `k`, if any.
    pub fn get(&self, k: &str) -> (r: Option<&V>)
        ensures
            self.has(k@) ==> r == Some(&self.value_of(k@)),
            !self.has(k@) ==> r is None,
    {
        proof {
            use_type_invariant(self);
        }
        match self.find(k) {
            Some(i) => {
                proof {
                    self.lemma_value_of(i as int);
                }
                Some(&self.entries[i].1)
            },
            None => None,
        }
    }

    /// Stores `value` under `key`, replacing an earlier value; a new key
    /// goes last.
    pub fn insert(&mut self, key: String, value: V)
        ensures
            final(self).has(key@),
            final(self).value_of(key@) == value,
            forall|k: Seq<char>| k != key@ ==> (final(self).has(k) <==> old(self).has(k)),
            forall|k: Seq<char>|
                k != key@ && old(self).has(k) ==> final(self).value_of(k) == old(self).value_of(k),
            old(self).has(key@) ==> final(self).key_list() == old(self).key_list(),
            !old(self).has(key@) ==> final(self).key_list() == old(self).key_list().push(key@),
    {
        proof {
            use_type_invariant(&*self);
        }
        let ghost old_self = *self;
        match self.find(key.as_str()) {
            Some(i) => {
                let mut entries = Vec::new();
                std::mem::swap(&mut entries, &mut self.entries);
                entries.set(i, (key, value));
                assert(entries@.map_values(|e: (String, V)| e.0@) =~= old_self.key_list());
                self.entries = entries;
                proof {
                    assert(self.key_list() =~= old_self.key_list());
                    self.lemma_value_of(i as int);
                    assert forall|k: Seq<char>| k != key@ && old_self.has(k) implies self.value_of(k)
                        == old_self.value_of(k) by {
                        let j = choose|j: int| 0 <= j < old_self.key_list().len() && old_self.key_list()[j] == k;
                        old_self.lemma_value_of(j);
                        self.lemma_value_of(j);
                    }
                }
            },
            None => {
                let mut entries = Vec::new();
                std::mem::swap(&mut entries, &mut self.entries);
                entries.push((key, value));
                proof {
                    let kl = entries@.map_values(|e: (String, V)| e.0@);
                    assert(kl =~= old_self.key_list().push(key@));
                    assert(kl.no_duplicates()) by {
                        assert forall|a: int, b: int|
                            0 <= a < kl.len() && 0 <= b < kl.len() && a != b
                                implies kl[a] != kl[b] by {
                            if a < old_self.key_list().len() && b < old_self.key_list().len() {
                            } else if a < old_self.key_list().len() {
                                assert(old_self.key_list()[a] == kl[a]);
                            } else if b < old_self.key_list().len() {
                                assert(old_self.key_list()[b] == kl[b]);
                            }
                        }
                    }
                }
                self.entries = entries;
                proof {
                    assert(self.key_list() =~= old_self.key_list().push(key@));
                    self.lemma_value_of(self.key_list().len() - 1);
                    assert forall|k: Seq<char>| k != key@ implies (self.has(k) <==> old_self.has(k)) by {
                        if old_self.has(k) {
                            let j = choose|j: int| 0 <= j < old_self.key_list().len() && old_self.key_list()[j] == k;
                            assert(self.key_list()[j] == k);
                        }
                        if self.has(k) {
                            let j = choose|j: int| 0 <= j < self.key_list().len() && self.key_list()[j] == k;
                            assert(old_self.key_list()[j] == k);
                        }
                    }
                    assert forall|k: Seq<char>| k != key@ && old_self.has(k) implies self.value_of(k)
                        == old_self.value_of(k) by {
                        let j = choose|j: int| 0 <= j < old_self.key_list().len() && old_self.key_list()[j] == k;
                        old_self.lemma_value_of(j);
                        assert(self.key_list()[j] == old_self.key_list()[j]);
                        self.lemma_value_of(j);
                    }
                }
            },
        }
    }

    /// The keys, in insertion order.
    pub fn keys(&self) -> (r: Vec<String>)
        ensures
            strs_view(r@) == self.key_list(),
    {
        let mut r: Vec<String> = Vec::new();
        let mut i: usize = 0;
        while i < self.entries.len()
            invariant
                i <= self.entries@.len(),
                strs_view(r@) == self.key_list().subrange(0, i as int),
            decreases self.entries@.len() - i,
        {
            let ghost old_r = r@;
            assert(strs_view(old_r).len() == i);
            assert(old_r.len() == i);
            r.push(self.entries[i].0.clone());
            assert forall|j: int| 0 <= j < i + 1 implies #[trigger] strs_view(r@)[j]
                == self.key_list().subrange(0, i + 1)[j] by {
                if j < i {
                    assert(r@[j] == old_r[j]);
                    assert(strs_view(old_r)[j] == self.key_list().subrange(0, i as int)[j]);
                }
            }
            assert(strs_view(r@) =~= self.key_list().subrange(0, i + 1));
            i = i + 1;
        }
        assert(self.key_list().subrange(0, self.entries@.len() as int) =~= self.key_list());
        r
    }
}

} // verus!
