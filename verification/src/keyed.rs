//! A map from string keys to values, kept as a list of entries with distinct
//! keys in insertion order.

use vstd::prelude::*;
use crate::seqs::lemma_push_no_duplicates;
use crate::text::{str_eq, string_views};

verus! {

/// The keys of a list of entries, in order.
pub open spec fn entry_keys<V>(entries: Seq<(String, V)>) -> Seq<Seq<char>> {
    entries.map_values(|e: (String, V)| e.0@)
}

/// A list of entries with distinct keys, read as a map.
pub open spec fn entries_as_map<V>(entries: Seq<(String, V)>) -> Map<Seq<char>, V> {
    Map::new(
        |k: Seq<char>| entry_keys(entries).contains(k),
        |k: Seq<char>| entries[entry_keys(entries).index_of(k)].1,
    )
}

pub proof fn lemma_entries_at<V>(entries: Seq<(String, V)>, i: int)
    requires
        entry_keys(entries).no_duplicates(),
        0 <= i < entries.len(),
    ensures
        entries_as_map(entries).contains_key(entries[i].0@),
        entries_as_map(entries)[entries[i].0@] == entries[i].1,
{
    let ks = entry_keys(entries);
    assert(ks[i] == entries[i].0@);
    assert(ks.contains(ks[i]));
    let j = ks.index_of(ks[i]);
    assert(0 <= j < ks.len() && ks[j] == ks[i]);
}

proof fn lemma_entries_update<V>(entries: Seq<(String, V)>, i: int, e: (String, V))
    requires
        entry_keys(entries).no_duplicates(),
        0 <= i < entries.len(),
        entries[i].0@ == e.0@,
    ensures
        entry_keys(entries.update(i, e)) == entry_keys(entries),
        entries_as_map(entries.update(i, e)) == entries_as_map(entries).insert(e.0@, e.1),
{
    let n2 = entries.update(i, e);
    assert(entry_keys(n2) =~= entry_keys(entries));
    let m1 = entries_as_map(entries).insert(e.0@, e.1);
    let m2 = entries_as_map(n2);
    assert(entry_keys(entries)[i] == e.0@);
    assert forall|k: Seq<char>| #[trigger] m2.contains_key(k) == m1.contains_key(k) by {
        assert(m2.contains_key(k) == entry_keys(n2).contains(k));
        assert(m1.contains_key(k) == (entry_keys(entries).contains(k) || k == e.0@));
    }
    assert forall|k: Seq<char>| m2.contains_key(k) implies #[trigger] m2[k] == m1[k] by {
        let j = entry_keys(n2).index_of(k);
        assert(0 <= j < n2.len() && entry_keys(n2)[j] == k);
        lemma_entries_at(n2, j);
        if j != i {
            lemma_entries_at(entries, j);
        }
    }
    assert(m2 =~= m1);
}

proof fn lemma_entries_push<V>(entries: Seq<(String, V)>, e: (String, V))
    requires
        entry_keys(entries).no_duplicates(),
        !entry_keys(entries).contains(e.0@),
    ensures
        entry_keys(entries.push(e)) == entry_keys(entries).push(e.0@),
        entry_keys(entries.push(e)).no_duplicates(),
        entries_as_map(entries.push(e)) == entries_as_map(entries).insert(e.0@, e.1),
{
    let n2 = entries.push(e);
    assert(entry_keys(n2) =~= entry_keys(entries).push(e.0@));
    lemma_push_no_duplicates(entry_keys(entries), e.0@);
    let m1 = entries_as_map(entries).insert(e.0@, e.1);
    let m2 = entries_as_map(n2);
    assert forall|k: Seq<char>| #[trigger] m2.contains_key(k) == m1.contains_key(k) by {
        assert(m2.contains_key(k) == entry_keys(n2).contains(k));
        assert(m1.contains_key(k) == (entry_keys(entries).contains(k) || k == e.0@));
        assert(entry_keys(n2)[entries.len() as int] == e.0@);
        if entry_keys(entries).contains(k) {
            let j = choose|j: int| 0 <= j < entry_keys(entries).len() && entry_keys(entries)[j] == k;
            assert(entry_keys(n2)[j] == k);
        }
        if entry_keys(n2).contains(k) && k != e.0@ {
            let j = choose|j: int| 0 <= j < entry_keys(n2).len() && entry_keys(n2)[j] == k;
            assert(entry_keys(entries)[j] == k);
        }
    }
    assert forall|k: Seq<char>| m2.contains_key(k) implies #[trigger] m2[k] == m1[k] by {
        let j = entry_keys(n2).index_of(k);
        assert(0 <= j < n2.len() && entry_keys(n2)[j] == k);
        lemma_entries_at(n2, j);
        if j != entries.len() as int {
            lemma_entries_at(entries, j);
        }
    }
    assert(m2 =~= m1);
}

proof fn lemma_entries_remove<V>(entries: Seq<(String, V)>, i: int)
    requires
        entry_keys(entries).no_duplicates(),
        0 <= i < entries.len(),
    ensures
        entry_keys(entries.remove(i)) == entry_keys(entries).remove(i),
        entry_keys(entries.remove(i)).no_duplicates(),
        entries_as_map(entries.remove(i)) == entries_as_map(entries).remove(entries[i].0@),
{
    let n2 = entries.remove(i);
    let ks = entry_keys(entries);
    let ks2 = entry_keys(n2);
    assert(ks2 =~= ks.remove(i));
    assert forall|a: int| 0 <= a < ks2.len() implies #[trigger] ks2[a] == (if a < i { ks[a] } else { ks[a + 1] }) by {}
    assert forall|a: int, b: int| 0 <= a < ks2.len() && 0 <= b < ks2.len() && a != b
        implies ks2[a] != ks2[b] by {
        let a1 = if a < i { a } else { a + 1 };
        let b1 = if b < i { b } else { b + 1 };
        assert(ks2[a] == ks[a1] && ks2[b] == ks[b1]);
    }
    let m1 = entries_as_map(entries).remove(entries[i].0@);
    let m2 = entries_as_map(n2);
    assert forall|k: Seq<char>| #[trigger] m2.contains_key(k) == m1.contains_key(k) by {
        assert(m2.contains_key(k) == ks2.contains(k));
        assert(m1.contains_key(k) == (ks.contains(k) && k != entries[i].0@));
        assert(ks[i] == entries[i].0@);
        if ks2.contains(k) {
            let a = choose|a: int| 0 <= a < ks2.len() && ks2[a] == k;
            let a1 = if a < i { a } else { a + 1 };
            assert(ks[a1] == k);
            assert(a1 != i);
            assert(ks.contains(k));
        }
        if ks.contains(k) && k != entries[i].0@ {
            let a = choose|a: int| 0 <= a < ks.len() && ks[a] == k;
            assert(a != i);
            let a2 = if a < i { a } else { a - 1 };
            assert(ks2[a2] == k);
        }
    }
    assert forall|k: Seq<char>| m2.contains_key(k) implies #[trigger] m2[k] == m1[k] by {
        let a = ks2.index_of(k);
        assert(0 <= a < ks2.len() && ks2[a] == k);
        lemma_entries_at(n2, a);
        let a1 = if a < i { a } else { a + 1 };
        assert(n2[a] == entries[a1]);
        lemma_entries_at(entries, a1);
    }
    assert(m2 =~= m1);
}

pub proof fn lemma_entries_len<V>(entries: Seq<(String, V)>)
    requires
        entry_keys(entries).no_duplicates(),
    ensures
        entries_as_map(entries).dom().len() == entries.len(),
        entries_as_map(entries).dom() == entry_keys(entries).to_set(),
{
    let ks = entry_keys(entries);
    ks.unique_seq_to_set();
    assert(entries_as_map(entries).dom() =~= ks.to_set());
}

/// A map from string keys to values that remembers the order keys arrived in.
#[derive(Debug, Clone)]
pub struct KeyedList<V> {
    entries: Vec<(String, V)>,
}

impl<V> KeyedList<V> {
    /// Keys are distinct.
    pub closed spec fn wf(self) -> bool {
        entry_keys(self.entries@).no_duplicates()
    }

    /// The contents as a map.
    pub closed spec fn map(self) -> Map<Seq<char>, V> {
        entries_as_map(self.entries@)
    }

    /// The keys in the order they arrived.
    pub closed spec fn key_order(self) -> Seq<Seq<char>> {
        entry_keys(self.entries@)
    }

    /// The entries in the order their keys arrived.
    pub closed spec fn entries(self) -> Seq<(String, V)> {
        self.entries@
    }

    /// The entries are those of the map, keyed in the order shown.
    pub proof fn lemma_model(self)
        requires
            self.wf(),
        ensures
            self.key_order() == entry_keys(self.entries()),
            self.key_order().no_duplicates(),
            self.map() == entries_as_map(self.entries()),
            self.map().dom() == self.key_order().to_set(),
            self.map().dom().len() == self.entries().len(),
            forall|i: int| 0 <= i < self.entries().len() ==>
                #[trigger] self.map()[self.entries()[i].0@] == self.entries()[i].1
                && self.map().contains_key(self.entries()[i].0@),
    {
        lemma_entries_len(self.entries@);
        assert forall|i: int| 0 <= i < self.entries().len() implies
            #[trigger] self.map()[self.entries()[i].0@] == self.entries()[i].1
            && self.map().contains_key(self.entries()[i].0@) by {
            lemma_entries_at(self.entries@, i);
        }
    }

    /// An empty map.
    pub fn new() -> (r: Self)
        ensures
            r.wf(),
            r.map() == Map::<Seq<char>, V>::empty(),
            r.key_order() == Seq::<Seq<char>>::empty(),
    {
        let r = KeyedList { entries: Vec::new() };
        assert(entry_keys(r.entries@) =~= Seq::<Seq<char>>::empty());
        assert(r.map() =~= Map::<Seq<char>, V>::empty());
        r
    }

    fn find(&self, key: &str) -> (r: Option<usize>)
        ensures
            match r {
                Some(i) => i < self.entries@.len() && self.entries@[i as int].0@ == key@,
                None => !entry_keys(self.entries@).contains(key@),
            },
    {
        let mut i: usize = 0;
        while i < self.entries.len()
            invariant
                i <= self.entries@.len(),
                forall|j: int| 0 <= j < i ==> self.entries@[j].0@ != key@,
            decreases self.entries.len() - i,
        {
            if str_eq(self.entries[i].0.as_str(), key) {
                return Some(i);
            }
            i = i + 1;
        }
        proof {
            if entry_keys(self.entries@).contains(key@) {
                let j = choose|j: int| 0 <= j < entry_keys(self.entries@).len() && entry_keys(self.entries@)[j] == key@;
                assert(self.entries@[j].0@ == key@);
            }
        }
        None
    }

    /// Whether `key` is present.
    pub fn contains_key(&self, key: &str) -> (r: bool)
        requires
            self.wf(),
        ensures
            r == self.map().contains_key(key@),
    {
        match self.find(key) {
            Some(i) => {
                proof { lemma_entries_at(self.entries@, i as int); }
                true
            },
            None => false,
        }
    }

    /// The value under `key`.
    pub fn get(&self, key: &str) -> (r: Option<&V>)
        requires
            self.wf(),
        ensures
            match r {
                Some(v) => self.map().contains_key(key@) && *v == self.map()[key@],
                None => !self.map().contains_key(key@),
            },
    {
        match self.find(key) {
            Some(i) => {
                proof { lemma_entries_at(self.entries@, i as int); }
                Some(&self.entries[i].1)
            },
            None => None,
        }
    }

    /// Puts `value` under `key`, returning the value it replaces. A new key
    /// goes last in the key order; a present key keeps its place.
    pub fn insert(&mut self, key: String, value: V) -> (r: Option<V>)
        requires
            old(self).wf(),
        ensures
            final(self).wf(),
            final(self).map() == old(self).map().insert(key@, value),
            match r {
                Some(v) => old(self).map().contains_key(key@) && v == old(self).map()[key@]
                    && final(self).key_order() == old(self).key_order(),
                None => !old(self).map().contains_key(key@)
                    && final(self).key_order() == old(self).key_order().push(key@),
            },
    {
        let ghost e = (key, value);
        match self.find(key.as_str()) {
            Some(i) => {
                proof {
                    lemma_entries_at(self.entries@, i as int);
                    lemma_entries_update(self.entries@, i as int, e);
                }
                let (k0, old_value) = self.entries.remove(i);
                self.entries.insert(i, (key, value));
                assert(self.entries@ =~= old(self).entries@.update(i as int, e));
                Some(old_value)
            },
            None => {
                proof {
                    lemma_entries_push(self.entries@, e);
                    if entries_as_map(self.entries@).contains_key(key@) {
                        assert(entry_keys(self.entries@).contains(key@));
                    }
                }
                self.entries.push((key, value));
                None
            },
        }
    }

    /// Removes `key`, returning its value. The other keys keep their order.
    pub fn remove(&mut self, key: &str) -> (r: Option<V>)
        requires
            old(self).wf(),
        ensures
            final(self).wf(),
            final(self).map() == old(self).map().remove(key@),
            match r {
                Some(v) => old(self).map().contains_key(key@) && v == old(self).map()[key@]
                    && exists|i: int| 0 <= i < old(self).key_order().len()
                        && old(self).key_order()[i] == key@
                        && #[trigger] final(self).key_order() == old(self).key_order().remove(i),
                None => !old(self).map().contains_key(key@) && *final(self) == *old(self),
            },
    {
        match self.find(key) {
            Some(i) => {
                proof {
                    lemma_entries_at(self.entries@, i as int);
                    lemma_entries_remove(self.entries@, i as int);
                }
                let (_k, v) = self.entries.remove(i);
                assert(entry_keys(old(self).entries@)[i as int] == key@);
                assert(0 <= i < old(self).key_order().len()
                    && old(self).key_order()[i as int] == key@
                    && self.key_order() == old(self).key_order().remove(i as int));
                Some(v)
            },
            None => {
                assert(!self.map().contains_key(key@));
                None
            },
        }
    }

    /// Replaces the value at position `i` of the key order, keeping its key.
    pub fn set_value_at(&mut self, i: usize, value: V)
        requires
            old(self).wf(),
            i < old(self).entries().len(),
        ensures
            final(self).wf(),
            final(self).entries() == old(self).entries().update(i as int, (old(self).entries()[i as int].0, value)),
            final(self).key_order() == old(self).key_order(),
            final(self).map() == old(self).map().insert(old(self).entries()[i as int].0@, value),
    {
        let (k, _v) = self.entries.remove(i);
        let ghost e = (k, value);
        self.entries.insert(i, (k, value));
        assert(self.entries@ =~= old(self).entries@.update(i as int, e));
        proof { lemma_entries_update(old(self).entries@, i as int, e); }
    }

    /// The number of keys.
    pub fn len(&self) -> (n: usize)
        requires
            self.wf(),
        ensures
            n == self.map().dom().len(),
            n == self.key_order().len(),
    {
        proof { lemma_entries_len(self.entries@); }
        self.entries.len()
    }

    /// Whether no key is present.
    pub fn is_empty(&self) -> (b: bool)
        requires
            self.wf(),
        ensures
            b == (self.map().dom().len() == 0),
    {
        proof { lemma_entries_len(self.entries@); }
        self.entries.len() == 0
    }

    /// The key and value at position `i` of the key order.
    pub fn entry_at(&self, i: usize) -> (r: (&String, &V))
        requires
            i < self.entries().len(),
        ensures
            *r.0 == self.entries()[i as int].0,
            *r.1 == self.entries()[i as int].1,
    {
        let e = &self.entries[i];
        (&e.0, &e.1)
    }

    /// The number of entries, which is the length of the key order.
    pub fn entry_count(&self) -> (n: usize)
        ensures
            n == self.entries().len(),
    {
        self.entries.len()
    }

    /// Removes every entry.
    pub fn clear(&mut self)
        ensures
            final(self).wf(),
            final(self).map() == Map::<Seq<char>, V>::empty(),
            final(self).key_order() == Seq::<Seq<char>>::empty(),
    {
        self.entries = Vec::new();
        assert(entry_keys(self.entries@) =~= Seq::<Seq<char>>::empty());
        assert(self.map() =~= Map::<Seq<char>, V>::empty());
    }

    /// The keys, in order.
    pub fn keys(&self) -> (r: Vec<String>)
        ensures
            string_views(r@) == self.key_order(),
    {
        let mut r: Vec<String> = Vec::new();
        let mut i: usize = 0;
        while i < self.entries.len()
            invariant
                i <= self.entries@.len(),
                string_views(r@) == entry_keys(self.entries@).subrange(0, i as int),
            decreases self.entries.len() - i,
        {
            let k = self.entries[i].0.clone();
            assert(k@ == self.entries@[i as int].0@);
            let ghost before = r@;
            r.push(k);
            assert(string_views(r@) =~= string_views(before).push(k@));
            i = i + 1;
            assert(string_views(r@) =~= entry_keys(self.entries@).subrange(0, i as int));
        }
        assert(entry_keys(self.entries@).subrange(0, i as int) =~= entry_keys(self.entries@));
        r
    }
}

impl<V: Copy> KeyedList<V> {
    /// A copy of the list, with the same keys in the same order and the
    /// same values.
    pub fn clone_list(&self) -> (r: Self)
        requires
            self.wf(),
        ensures
            r.wf(),
            r.key_order() == self.key_order(),
            r.map() == self.map(),
            r.entries().len() == self.entries().len(),
    {
        let mut entries: Vec<(String, V)> = Vec::new();
        let mut i: usize = 0;
        while i < self.entries.len()
            invariant
                i <= self.entries@.len(),
                entries@.len() == i,
                entry_keys(entries@) == entry_keys(self.entries@).subrange(0, i as int),
                forall|j: int| 0 <= j < i ==> #[trigger] entries@[j].1 == self.entries@[j].1,
            decreases self.entries.len() - i,
        {
            let k = self.entries[i].0.clone();
            let v = self.entries[i].1;
            let ghost before = entries@;
            entries.push((k, v));
            assert(entry_keys(entries@) =~= entry_keys(before).push(k@));
            i = i + 1;
            assert(entry_keys(entries@) =~= entry_keys(self.entries@).subrange(0, i as int));
        }
        assert(entry_keys(self.entries@).subrange(0, i as int) =~= entry_keys(self.entries@));
        let r = KeyedList { entries };
        assert(r.map() =~= self.map()) by {
            assert forall|k: Seq<char>| r.map().contains_key(k) implies r.map()[k] == self.map()[k] by {
                let j = entry_keys(r.entries@).index_of(k);
                assert(entry_keys(self.entries@)[j] == k);
            }
        }
        r
    }
}

impl KeyedList<String> {
    /// A copy of a list of string values, with the same keys in the same
    /// order and values of the same text.
    pub fn clone_strings(&self) -> (r: Self)
        requires
            self.wf(),
        ensures
            r.wf(),
            r.key_order() == self.key_order(),
            r.map().dom() == self.map().dom(),
            forall|k: Seq<char>| #[trigger] r.map().contains_key(k) ==> r.map()[k]@ == self.map()[k]@,
    {
        let mut entries: Vec<(String, String)> = Vec::new();
        let mut i: usize = 0;
        while i < self.entries.len()
            invariant
                i <= self.entries@.len(),
                entries@.len() == i,
                entry_keys(entries@) == entry_keys(self.entries@).subrange(0, i as int),
                forall|j: int| 0 <= j < i ==> #[trigger] entries@[j].1@ == self.entries@[j].1@,
            decreases self.entries.len() - i,
        {
            let k = self.entries[i].0.clone();
            let v = self.entries[i].1.clone();
            let ghost before = entries@;
            entries.push((k, v));
            assert(entry_keys(entries@) =~= entry_keys(before).push(k@));
            i = i + 1;
            assert(entry_keys(entries@) =~= entry_keys(self.entries@).subrange(0, i as int));
        }
        assert(entry_keys(self.entries@).subrange(0, i as int) =~= entry_keys(self.entries@));
        let r = KeyedList { entries };
        assert(r.map().dom() =~= self.map().dom());
        assert forall|k: Seq<char>| #[trigger] r.map().contains_key(k) implies r.map()[k]@ == self.map()[k]@ by {
            let j = entry_keys(r.entries@).index_of(k);
            assert(entry_keys(self.entries@)[j] == k);
        }
        r
    }
}

/// A copy of a list of bytes.
pub fn copy_bytes(v: &Vec<u8>) -> (r: Vec<u8>)
    ensures
        r@ == v@,
{
    let mut r: Vec<u8> = Vec::new();
    let mut i: usize = 0;
    while i < v.len()
        invariant
            i <= v@.len(),
            r@ == v@.subrange(0, i as int),
        decreases v.len() - i,
    {
        r.push(v[i]);
        i = i + 1;
        assert(r@ =~= v@.subrange(0, i as int));
    }
    assert(r@ =~= v@);
    r
}

impl KeyedList<Vec<u8>> {
    /// A copy of a list of byte values, with the same keys in the same order
    /// and the same bytes.
    pub fn clone_bytes(&self) -> (r: Self)
        ensures
            r.wf() == self.wf(),
            r.key_order() == self.key_order(),
            r.map().dom() == self.map().dom(),
            forall|k: Seq<char>| #[trigger] r.map().contains_key(k) ==> r.map()[k]@ == self.map()[k]@,
    {
        let mut entries: Vec<(String, Vec<u8>)> = Vec::new();
        let mut i: usize = 0;
        while i < self.entries.len()
            invariant
                i <= self.entries@.len(),
                entries@.len() == i,
                entry_keys(entries@) == entry_keys(self.entries@).subrange(0, i as int),
                forall|j: int| 0 <= j < i ==> #[trigger] entries@[j].1@ == self.entries@[j].1@,
            decreases self.entries.len() - i,
        {
            let k = self.entries[i].0.clone();
            let v = copy_bytes(&self.entries[i].1);
            let ghost before = entries@;
            entries.push((k, v));
            assert(entry_keys(entries@) =~= entry_keys(before).push(k@));
            i = i + 1;
            assert(entry_keys(entries@) =~= entry_keys(self.entries@).subrange(0, i as int));
        }
        assert(entry_keys(self.entries@).subrange(0, i as int) =~= entry_keys(self.entries@));
        let r = KeyedList { entries };
        assert(r.map().dom() =~= self.map().dom());
        assert forall|k: Seq<char>| #[trigger] r.map().contains_key(k) implies r.map()[k]@ == self.map()[k]@ by {
            let j = entry_keys(r.entries@).index_of(k);
            assert(entry_keys(self.entries@)[j] == k);
        }
        r
    }
}

} // verus!
