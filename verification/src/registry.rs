//! The session registry shared by both supervisors: a mutable mapping from
//! session id to session record.
//!
//! Exactly one record exists per live session id.  The registry is viewed as
//! a [`Map`] from the id's character sequence to the stored record; every
//! operation's contract is stated over that map.  Internally the entries sit
//! in a vector with pairwise-distinct keys, so no assumptions about hashing
//! or ordering of the standard collections are needed.

use vstd::prelude::*;

use crate::text::str_eq;

verus! {

/// A mapping from session id to session record, with exactly one record per
/// id.
pub struct Registry<V> {
    entries: Vec<(String, V)>,
}

impl<V> Registry<V> {
    /// Well-formedness: no two entries share a key.  [`Registry::new`]
    /// establishes it and every operation preserves it.
    pub closed spec fn wf(&self) -> bool {
        forall|i: int, j: int|
            0 <= i < j < self.entries@.len() ==> (#[trigger] self.entries@[i]).0@ != (
            #[trigger] self.entries@[j]).0@
    }

    /// Some entry carries the key `k`.
    pub closed spec fn has_key(&self, k: Seq<char>) -> bool {
        exists|i: int| 0 <= i < self.entries@.len() && (#[trigger] self.entries@[i]).0@ == k
    }

    /// The position of the entry carrying `k`, when one exists.
    spec fn index_of(&self, k: Seq<char>) -> int {
        choose|i: int| 0 <= i < self.entries@.len() && (#[trigger] self.entries@[i]).0@ == k
    }

    proof fn lemma_index_of(&self, i: int, k: Seq<char>)
        requires
            self.wf(),
            0 <= i < self.entries@.len(),
            self.entries@[i].0@ == k,
        ensures
            self.has_key(k),
            self.index_of(k) == i,
    {
        assert(self.has_key(k));
        let j = self.index_of(k);
        assert(0 <= j < self.entries@.len() && self.entries@[j].0@ == k);
        if i < j {
            assert(self.entries@[i].0@ != self.entries@[j].0@);
        } else if j < i {
            assert(self.entries@[j].0@ != self.entries@[i].0@);
        }
    }

    /// An empty registry.
    pub fn new() -> (r: Registry<V>)
        ensures
            r.wf(),
            r@ == Map::<Seq<char>, V>::empty(),
    {
        let r = Registry { entries: Vec::new() };
        proof {
            assert(r@ =~= Map::<Seq<char>, V>::empty());
        }
        r
    }

    /// Whether a record is registered under `key`.
    pub fn contains_key(&self, key: &str) -> (r: bool)
        ensures
            r == self@.dom().contains(key@),
    {
        let n: usize = self.entries.len();
        let mut i: usize = 0;
        while i < n
            invariant
                n == self.entries@.len(),
                i <= n,
                forall|j: int| 0 <= j < i ==> (#[trigger] self.entries@[j]).0@ != key@,
            decreases n - i,
        {
            if str_eq(self.entries[i].0.as_str(), key) {
                proof {
                    assert(self.has_key(key@));
                }
                return true;
            }
            i = i + 1;
        }
        proof {
            assert(!self.has_key(key@));
        }
        false
    }

    /// The record registered under `key`, when one exists.
    pub fn get(&self, key: &str) -> (r: Option<&V>)
        requires
            self.wf(),
        ensures
            match r {
                Some(v) => self@.dom().contains(key@) && *v == self@[key@],
                None => !self@.dom().contains(key@),
            },
    {
        let n: usize = self.entries.len();
        let mut i: usize = 0;
        while i < n
            invariant
                self.wf(),
                n == self.entries@.len(),
                i <= n,
                forall|j: int| 0 <= j < i ==> (#[trigger] self.entries@[j]).0@ != key@,
            decreases n - i,
        {
            if str_eq(self.entries[i].0.as_str(), key) {
                proof {
                    self.lemma_index_of(i as int, key@);
                }
                return Some(&self.entries[i].1);
            }
            i = i + 1;
        }
        proof {
            assert(!self.has_key(key@));
        }
        None
    }

    /// Registers `value` under the fresh key `key`.  Replacement of a live
    /// record goes through [`Registry::remove`] first, so that its owner
    /// decides what to do with the removed record.
    pub fn insert(&mut self, key: String, value: V)
        requires
            old(self).wf(),
            !old(self)@.dom().contains(key@),
        ensures
            final(self).wf(),
            final(self)@ == old(self)@.insert(key@, value),
    {
        proof {
            assert(!old(self).has_key(key@));
        }
        self.entries.push((key, value));
        proof {
            let n = self.entries@.len() - 1;
            assert forall|k: Seq<char>| #[trigger]
                self.has_key(k) == (old(self).has_key(k) || k == key@) by {
                if self.has_key(k) {
                    let i = choose|i: int|
                        0 <= i < self.entries@.len() && (#[trigger] self.entries@[i]).0@ == k;
                    if i < n {
                        assert(old(self).entries@[i].0@ == k);
                        assert(old(self).has_key(k));
                    }
                }
                if old(self).has_key(k) {
                    let i = choose|i: int|
                        0 <= i < old(self).entries@.len() && (#[trigger] old(
                            self,
                        ).entries@[i]).0@ == k;
                    assert(self.entries@[i].0@ == k);
                    assert(self.has_key(k));
                }
                if k == key@ {
                    assert(self.entries@[n].0@ == k);
                    assert(self.has_key(k));
                }
            }
            assert(self@ =~= old(self)@.insert(key@, value)) by {
                assert forall|k: Seq<char>| #[trigger]
                    self@.dom().contains(k) implies old(self)@.insert(
                    key@,
                    value,
                ).dom().contains(k) && self@[k] == old(self)@.insert(key@, value)[k] by {
                    if k == key@ {
                        self.lemma_index_of(n, k);
                    } else {
                        let i = choose|i: int|
                            0 <= i < old(self).entries@.len() && (#[trigger] old(
                                self,
                            ).entries@[i]).0@ == k;
                        old(self).lemma_index_of(i, k);
                        self.lemma_index_of(i, k);
                    }
                }
                assert forall|k: Seq<char>| #[trigger]
                    old(self)@.insert(key@, value).dom().contains(k) implies self@.dom().contains(
                    k,
                ) by {}
            }
        }
    }

    /// Removes and returns the record registered under `key`, if any.
    pub fn remove(&mut self, key: &str) -> (r: Option<V>)
        requires
            old(self).wf(),
        ensures
            final(self).wf(),
            final(self)@ == old(self)@.remove(key@),
            match r {
                Some(v) => old(self)@.dom().contains(key@) && v == old(self)@[key@],
                None => !old(self)@.dom().contains(key@),
            },
    {
        let n: usize = self.entries.len();
        let mut i: usize = 0;
        while i < n
            invariant
                self.wf(),
                n == self.entries@.len(),
                i <= n,
                forall|j: int| 0 <= j < i ==> (#[trigger] self.entries@[j]).0@ != key@,
                *self == *old(self),
            decreases n - i,
        {
            if str_eq(self.entries[i].0.as_str(), key) {
                proof {
                    self.lemma_index_of(i as int, key@);
                }
                let pair = self.entries.remove(i);
                proof {
                    let es = old(self).entries@;
                    assert(self.entries@ == es.remove(i as int));
                    assert forall|a: int, b: int|
                        0 <= a < b < self.entries@.len() implies (
                    #[trigger] self.entries@[a]).0@ != (#[trigger] self.entries@[b]).0@ by {
                        let a0 = if a < i { a } else { a + 1 };
                        let b0 = if b < i { b } else { b + 1 };
                        assert(self.entries@[a] == es[a0]);
                        assert(self.entries@[b] == es[b0]);
                        assert(es[a0].0@ != es[b0].0@);
                    }
                    assert forall|k: Seq<char>| #[trigger]
                        self.has_key(k) == (old(self).has_key(k) && k != key@) by {
                        if self.has_key(k) {
                            let a = choose|a: int|
                                0 <= a < self.entries@.len() && (#[trigger] self.entries@[a]).0@
                                    == k;
                            let a0 = if a < i { a } else { a + 1 };
                            assert(self.entries@[a] == es[a0]);
                            old(self).lemma_index_of(a0, k);
                            assert(old(self).has_key(k));
                            if k == key@ {
                                old(self).lemma_index_of(i as int, k);
                                assert(a0 == i);
                                assert(false);
                            }
                        }
                        if old(self).has_key(k) && k != key@ {
                            let a0 = choose|a0: int|
                                0 <= a0 < es.len() && (#[trigger] es[a0]).0@ == k;
                            let a = if a0 < i { a0 } else { a0 - 1 };
                            assert(a0 != i);
                            assert(self.entries@[a] == es[a0]);
                            assert(self.has_key(k));
                        }
                    }
                    assert(self@ =~= old(self)@.remove(key@)) by {
                        assert forall|k: Seq<char>| #[trigger]
                            self@.dom().contains(k) implies old(self)@.remove(
                            key@,
                        ).dom().contains(k) && self@[k] == old(self)@.remove(key@)[k] by {
                            let a = choose|a: int|
                                0 <= a < self.entries@.len() && (#[trigger] self.entries@[a]).0@
                                    == k;
                            let a0 = if a < i { a } else { a + 1 };
                            assert(self.entries@[a] == es[a0]);
                            self.lemma_index_of(a, k);
                            old(self).lemma_index_of(a0, k);
                        }
                    }
                }
                return Some(pair.1);
            }
            i = i + 1;
        }
        proof {
            assert(!self.has_key(key@));
            assert(self@ =~= old(self)@.remove(key@));
        }
        None
    }

    /// Removes every record and hands all of them back: the registered key
    /// of each appears exactly once.
    pub fn drain(&mut self) -> (r: Vec<(String, V)>)
        requires
            old(self).wf(),
        ensures
            final(self).wf(),
            final(self)@ == Map::<Seq<char>, V>::empty(),
            forall|i: int, j: int|
                0 <= i < j < r@.len() ==> (#[trigger] r@[i]).0@ != (#[trigger] r@[j]).0@,
            forall|i: int|
                0 <= i < r@.len() ==> old(self)@.contains_pair(
                    (#[trigger] r@[i]).0@,
                    r@[i].1,
                ),
            forall|k: Seq<char>| #[trigger]
                old(self)@.dom().contains(k) ==> exists|i: int|
                    0 <= i < r@.len() && (#[trigger] r@[i]).0@ == k,
    {
        let mut out: Vec<(String, V)> = Vec::new();
        core::mem::swap(&mut out, &mut self.entries);
        proof {
            assert(self@ =~= Map::<Seq<char>, V>::empty());
            assert forall|i: int|
                0 <= i < out@.len() implies old(self)@.contains_pair(
                (#[trigger] out@[i]).0@,
                out@[i].1,
            ) by {
                old(self).lemma_index_of(i, out@[i].0@);
            }
            assert forall|k: Seq<char>| #[trigger]
                old(self)@.dom().contains(k) implies exists|i: int|
                0 <= i < out@.len() && (#[trigger] out@[i]).0@ == k by {
                assert(old(self).has_key(k));
            }
        }
        out
    }
}

impl<V> View for Registry<V> {
    type V = Map<Seq<char>, V>;

    closed spec fn view(&self) -> Map<Seq<char>, V> {
        Map::new(|k: Seq<char>| self.has_key(k), |k: Seq<char>| self.entries@[self.index_of(k)].1)
    }
}

} // verus!
