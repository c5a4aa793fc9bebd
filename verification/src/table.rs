//! An insertion-ordered map: a list of entries in which no key occurs twice.
use vstd::prelude::*;
use crate::seqs::{lemma_filter_all, lemma_filter_members, lemma_filter_out_one};

verus! {

/// A key of a [`Table`]: two keys are the same exactly when their views are equal.
pub trait Key: View {
    /// Whether `self` and `other` are the same key.
    fn same(&self, other: &Self) -> (equal: bool)
        ensures
            equal == (self@ == other@),
    ;
}

impl Key for String {
    fn same(&self, other: &Self) -> (equal: bool) {
        *self == *other
    }
}

impl Key for [u8; 32] {
    fn same(&self, other: &Self) -> (equal: bool) {
        let mut i: usize = 0;
        while i < 32
            invariant
                0 <= i <= 32,
                forall|j: int| 0 <= j < i ==> self@[j] == other@[j],
            decreases 32 - i,
        {
            if self[i] != other[i] {
                assert(self@[i as int] != other@[i as int]);
                return false;
            }
            i += 1;
        }
        assert(self@ =~= other@);
        true
    }
}

/// A map from keys to values that remembers the order in which its keys came.
pub struct Table<K: Key, V> {
    entries: Vec<(K, V)>,
}

/// The keys of a list of entries, in order.
pub closed spec fn keys_of<K: Key, V>(entries: Seq<(K, V)>) -> Seq<K::V> {
    entries.map_values(|e: (K, V)| e.0@)
}

impl<K: Key, V> Table<K, V> {
    /// The keys, in the order in which they came.
    pub closed spec fn order(self) -> Seq<K::V> {
        keys_of(self.entries@)
    }

    /// No key occurs twice.
    pub closed spec fn wf(self) -> bool {
        keys_of(self.entries@).no_duplicates()
    }

    /// The entries as a map.
    pub closed spec fn view(self) -> Map<K::V, V> {
        Map::new(
            |k: K::V| self.order().contains(k),
            |k: K::V| self.entries@[self.order().index_of(k)].1,
        )
    }

    /// The order lists exactly the keys of the map, each once.
    pub proof fn lemma_order(self)
        requires
            self.wf(),
        ensures
            self.order().no_duplicates(),
            forall|k: K::V| self@.contains_key(k) <==> #[trigger] self.order().contains(k),
            self.order().to_set() =~= self@.dom(),
            self@.dom().finite(),
            self@.len() == self.order().len(),
    {
        assert(self.order().to_set() =~= self@.dom());
        self.order().unique_seq_to_set();
        vstd::seq_lib::seq_to_set_is_finite(self.order());
    }

    proof fn lemma_entry(self, i: int)
        requires
            self.wf(),
            0 <= i < self.entries@.len(),
        ensures
            self.order()[i] == self.entries@[i].0@,
            self@.contains_key(self.entries@[i].0@),
            self@[self.entries@[i].0@] == self.entries@[i].1,
    {
        let k = self.entries@[i].0@;
        assert(self.order()[i] == k);
        assert(self.order().contains(k));
        let j = self.order().index_of(k);
        assert(self.order()[j] == k);
        assert(j == i);
    }

    /// A table without entries.
    pub fn new() -> (table: Self)
        ensures
            table.wf(),
            table.order() == Seq::<K::V>::empty(),
            table@ == Map::<K::V, V>::empty(),
    {
        let table = Table { entries: Vec::new() };
        proof {
            assert(table.order() =~= Seq::<K::V>::empty());
            assert(table@ =~= Map::<K::V, V>::empty());
        }
        table
    }

    /// The number of entries.
    pub fn len(&self) -> (n: usize)
        ensures
            n == self.order().len(),
    {
        self.entries.len()
    }

    /// Whether the table has no entries.
    pub fn is_empty(&self) -> (empty: bool)
        ensures
            empty == (self.order().len() == 0),
    {
        self.entries.len() == 0
    }

    /// The key of the entry at `i`.
    pub fn key_at(&self, i: usize) -> (key: &K)
        requires
            i < self.order().len(),
        ensures
            key@ == self.order()[i as int],
    {
        &self.entries[i].0
    }

    /// The value of the entry at `i`.
    pub fn value_at(&self, i: usize) -> (value: &V)
        requires
            self.wf(),
            i < self.order().len(),
        ensures
            *value == self@[self.order()[i as int]],
    {
        proof {
            self.lemma_entry(i as int);
        }
        &self.entries[i].1
    }

    /// The position of `key`, if it has one.
    fn find(&self, key: &K) -> (found: Option<usize>)
        ensures
            match found {
                Some(i) => i < self.entries@.len() && self.entries@[i as int].0@ == key@,
                None => !self.order().contains(key@),
            },
    {
        let mut i: usize = 0;
        while i < self.entries.len()
            invariant
                0 <= i <= self.entries@.len(),
                forall|j: int| 0 <= j < i ==> self.entries@[j].0@ != key@,
            decreases self.entries@.len() - i,
        {
            if self.entries[i].0.same(key) {
                return Some(i);
            }
            i += 1;
        }
        None
    }

    /// Whether `key` has an entry.
    pub fn contains_key(&self, key: &K) -> (found: bool)
        requires
            self.wf(),
        ensures
            found == self@.contains_key(key@),
    {
        match self.find(key) {
            Some(i) => {
                proof {
                    self.lemma_entry(i as int);
                }
                true
            },
            None => false,
        }
    }

    /// The value of `key`, if it has one.
    pub fn get(&self, key: &K) -> (value: Option<&V>)
        requires
            self.wf(),
        ensures
            match value {
                Some(v) => self@.contains_key(key@) && *v == self@[key@],
                None => !self@.contains_key(key@),
            },
    {
        match self.find(key) {
            Some(i) => {
                proof {
                    self.lemma_entry(i as int);
                }
                Some(&self.entries[i].1)
            },
            None => None,
        }
    }

    /// Gives `key` the value `value`. A key that is there keeps its place; a new one comes last.
    pub fn insert(&mut self, key: K, value: V)
        requires
            old(self).wf(),
        ensures
            final(self).wf(),
            final(self)@ == old(self)@.insert(key@, value),
            final(self).order() == (if old(self)@.contains_key(key@) {
                old(self).order()
            } else {
                old(self).order().push(key@)
            }),
    {
        match self.find(&key) {
            Some(i) => {
                proof {
                    self.lemma_entry(i as int);
                }
                let _ = self.put(i, value);
            },
            None => {
                self.entries.push((key, value));
                proof {
                    let before = *old(self);
                    assert(self.order() =~= before.order().push(key@));
                    self.lemma_entry(before.entries@.len() as int);
                    assert forall|k: K::V| #[trigger] before@.dom().contains(k) implies self@.dom().contains(k)
                        && self@[k] == before@[k] by {
                        let i = before.order().index_of(k);
                        assert(before.entries@[i].0@ == k);
                        assert(self.entries@[i] == before.entries@[i]);
                        self.lemma_entry(i);
                    }
                    assert forall|k: K::V| #[trigger] self@.dom().contains(k) implies before@.dom().contains(k)
                        || k == key@ by {
                        let i = self.order().index_of(k);
                        if k != key@ {
                            assert(before.order()[i] == k);
                        }
                    }
                    assert(self@ =~= before@.insert(key@, value));
                }
            },
        }
    }

    /// Replaces the value of the entry at `i`, and hands the former one out.
    fn put(&mut self, i: usize, value: V) -> (former: V)
        requires
            old(self).wf(),
            i < old(self).entries@.len(),
        ensures
            former == old(self).entries@[i as int].1,
            final(self).wf(),
            final(self).order() == old(self).order(),
            final(self)@ == old(self)@.insert(old(self).order()[i as int], value),
    {
        let ghost before = *self;
        let mut former = value;
        std::mem::swap(&mut self.entries[i].1, &mut former);
        proof {
            assert(self.order() =~= before.order());
            before.lemma_entry(i as int);
            self.lemma_entry(i as int);
            assert forall|k: K::V| before@.contains_key(k) && k != before.order()[i as int] implies self@[k]
                == before@[k] by {
                let j = before.order().index_of(k);
                assert(before.entries@[j].0@ == k);
                self.lemma_entry(j);
                before.lemma_entry(j);
            }
            assert(self@ =~= before@.insert(before.order()[i as int], value));
        }
        former
    }

    /// Gives `key` the value `value` if it has an entry, and hands its former value out.
    pub fn replace(&mut self, key: &K, value: V) -> (former: Option<V>)
        requires
            old(self).wf(),
        ensures
            final(self).wf(),
            final(self).order() == old(self).order(),
            match former {
                Some(v) => old(self)@.contains_key(key@) && v == old(self)@[key@] && final(self)@
                    == old(self)@.insert(key@, value),
                None => !old(self)@.contains_key(key@) && final(self)@ == old(self)@,
            },
    {
        match self.find(key) {
            Some(i) => {
                proof {
                    self.lemma_entry(i as int);
                }
                Some(self.put(i, value))
            },
            None => None,
        }
    }

    /// Takes the entry at `i` out.
    fn take_out(&mut self, i: usize)
        requires
            old(self).wf(),
            i < old(self).entries@.len(),
        ensures
            final(self).wf(),
            final(self).entries@ == old(self).entries@.remove(i as int),
            final(self).order() == old(self).order().remove(i as int),
            final(self)@ == old(self)@.remove(old(self).order()[i as int]),
    {
        let ghost before = *self;
        self.entries.remove(i);
        proof {
            let gone = before.order()[i as int];
            assert(self.order() =~= before.order().remove(i as int));
            before.lemma_entry(i as int);
            assert forall|k: K::V| self@.contains_key(k) implies k != gone && before@.contains_key(k) && self@[k]
                == before@[k] by {
                let j = self.order().index_of(k);
                let j0 = if j < i { j } else { j + 1 };
                assert(self.entries@[j] == before.entries@[j0]);
                self.lemma_entry(j);
                before.lemma_entry(j0);
            }
            assert forall|k: K::V| before@.contains_key(k) && k != gone implies self@.contains_key(k) by {
                let j0 = before.order().index_of(k);
                let j = if j0 < i { j0 } else { j0 - 1 };
                assert(self.entries@[j] == before.entries@[j0]);
                self.lemma_entry(j);
            }
            assert(self@ =~= before@.remove(gone));
        }
    }

    /// Takes the entry of `key` out, if it has one.
    pub fn remove(&mut self, key: &K)
        requires
            old(self).wf(),
        ensures
            final(self).wf(),
            final(self)@ == old(self)@.remove(key@),
            final(self).order() == old(self).order().filter(|k: K::V| k != key@),
    {
        match self.find(key) {
            Some(i) => {
                proof {
                    self.lemma_entry(i as int);
                    lemma_filter_out_one(self.order(), i as int);
                }
                self.take_out(i);
            },
            None => {
                proof {
                    assert(self@.remove(key@) =~= self@);
                    lemma_filter_all(self.order(), |k: K::V| k != key@);
                }
            },
        }
    }

    /// Keeps the entries whose value passes `keep`, in their order.
    pub(crate) fn retain<F: Fn(&V) -> bool>(&mut self, keep: F, Ghost(pass): Ghost<spec_fn(V) -> bool>)
        requires
            old(self).wf(),
            forall|v: &V| call_requires(keep, (v,)),
            forall|v: &V, b: bool| call_ensures(keep, (v,), b) ==> b == pass(*v),
        ensures
            final(self).wf(),
            final(self)@ == passing(old(self)@, pass),
            final(self).order() == old(self).order().filter(|k: K::V| pass(old(self)@[k])),
    {
        let ghost before = *self;
        let ghost good = |k: K::V| pass(before@[k]);
        let mut i: usize = 0;
        let ghost mut seen: int = 0;
        proof {
            assert(before.order().take(0).filter(good) =~= Seq::empty()) by {
                reveal(Seq::filter);
            }
            assert(before.order().skip(0) =~= before.order());
        }
        while i < self.entries.len()
            invariant
                forall|v: &V| call_requires(keep, (v,)),
                forall|v: &V, b: bool| call_ensures(keep, (v,), b) ==> b == pass(*v),
                good == (|k: K::V| pass(before@[k])),
                before.wf(),
                self.wf(),
                0 <= i <= self.entries@.len(),
                0 <= seen <= before.order().len(),
                before.order().take(seen).filter(good).len() == i,
                self.order() =~= before.order().take(seen).filter(good) + before.order().skip(seen),
                forall|k: K::V| #[trigger] self@.contains_key(k) ==> before@.contains_key(k) && self@[k] == before@[k],
            decreases self.entries@.len() - i,
        {
            proof {
                self.lemma_entry(i as int);
                assert(self.order()[i as int] == before.order()[seen]);
                assert(before.order().take(seen + 1).drop_last() =~= before.order().take(seen));
                assert(before.order().take(seen + 1).last() == before.order()[seen]);
                reveal(Seq::filter);
            }
            if keep(&self.entries[i].1) {
                i += 1;
            } else {
                self.take_out(i);
                proof {
                    assert(self.order() =~= before.order().take(seen).filter(good) + before.order().skip(seen + 1));
                }
            }
            proof {
                seen = seen + 1;
            }
        }
        proof {
            assert(before.order().take(seen) =~= before.order());
            assert(self.order() =~= before.order().filter(good));
            before.lemma_order();
            self.lemma_order();
            lemma_filter_members(before.order(), good);
            assert(self@ =~= passing(before@, pass));
        }
    }
}

/// The entries of a map whose value passes the test.
pub open spec fn passing<A, B>(entries: Map<A, B>, pass: spec_fn(B) -> bool) -> Map<A, B> {
    entries.restrict(Set::new(|k: A| pass(entries[k])))
}

/// Passing a test keeps exactly the entries whose value passes, each as it is.
pub proof fn law_passing<A, B>(entries: Map<A, B>, pass: spec_fn(B) -> bool, key: A)
    ensures
        passing(entries, pass).contains_key(key) <==> entries.contains_key(key) && pass(entries[key]),
        passing(entries, pass).contains_key(key) ==> passing(entries, pass)[key] == entries[key],
{
}

} // verus!
