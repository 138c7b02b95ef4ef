//! A small map from names to numbers, for keys that are strings of bytes or of
//! characters.

use vstd::prelude::*;
use crate::address::PeerId;

verus! {

/// A key of a [`Table`]: two keys with the same view are the same key.
pub trait Key: View + Sized {
    /// Whether both are the same key.
    fn same_key(&self, other: &Self) -> (res: bool)
        ensures
            res == (self@ == other@),
    ;
}

impl Key for PeerId {
    fn same_key(&self, other: &PeerId) -> (res: bool) {
        self.same(other)
    }
}

impl Key for String {
    fn same_key(&self, other: &String) -> (res: bool) {
        *self == *other
    }
}

/// The position of a key among entries.
pub open spec fn position<K: Key, V>(entries: Seq<(K, V)>, key: K::V) -> int {
    choose|i: int| 0 <= i < entries.len() && (#[trigger] entries[i]).0@ == key
}

/// Whether a key stands among entries.
pub open spec fn has_key<K: Key, V>(entries: Seq<(K, V)>, key: K::V) -> bool {
    exists|i: int| 0 <= i < entries.len() && (#[trigger] entries[i]).0@ == key
}

/// No key stands twice among the entries.
pub open spec fn distinct_keys<K: Key, V>(entries: Seq<(K, V)>) -> bool {
    forall|i: int, j: int|
        0 <= i < entries.len() && 0 <= j < entries.len() && i != j
            ==> (#[trigger] entries[i]).0@ != (#[trigger] entries[j]).0@
}

/// The map that a list of entries stands for.
pub open spec fn as_map<K: Key, V>(entries: Seq<(K, V)>) -> Map<K::V, V> {
    Map::new(|key: K::V| has_key(entries, key), |key: K::V| entries[position(entries, key)].1)
}

/// An entry in the map that its list stands for.
pub proof fn lemma_entry<K: Key, V>(entries: Seq<(K, V)>, i: int)
    requires
        distinct_keys(entries),
        0 <= i < entries.len(),
    ensures
        as_map(entries).contains_key(entries[i].0@),
        as_map(entries)[entries[i].0@] == entries[i].1,
{
    let key = entries[i].0@;
    assert(has_key(entries, key));
    let p = position(entries, key);
    assert(0 <= p < entries.len() && entries[p].0@ == key);
}

proof fn lemma_push<K: Key>(entries: Seq<(K, usize)>, entry: (K, usize))
    requires
        distinct_keys(entries),
        !has_key(entries, entry.0@),
    ensures
        distinct_keys(entries.push(entry)),
        as_map(entries.push(entry)) == as_map(entries).insert(entry.0@, entry.1),
{
    let after = entries.push(entry);
    assert forall|key: K::V| has_key(after, key) == (has_key(entries, key) || key == entry.0@) by {
        if has_key(entries, key) {
            let p = position(entries, key);
            assert(after[p].0@ == key);
        }
        if key == entry.0@ {
            assert(after[entries.len() as int].0@ == key);
        }
    }
    assert forall|key: K::V| has_key(after, key) implies as_map(after)[key] == as_map(
        entries,
    ).insert(entry.0@, entry.1)[key] by {
        let p = position(after, key);
        lemma_entry(after, p);
        if p < entries.len() {
            assert(entries[p].0@ == key);
            lemma_entry(entries, p);
        }
    }
    assert(as_map(after) =~= as_map(entries).insert(entry.0@, entry.1));
}

proof fn lemma_take_out<K: Key>(before: Seq<(K, usize)>, after: Seq<(K, usize)>, p: int)
    requires
        distinct_keys(before),
        0 <= p < before.len(),
        after == before.update(p, before.last()).drop_last(),
    ensures
        distinct_keys(after),
        as_map(after) == as_map(before).remove(before[p].0@),
{
    let gone = before[p].0@;
    assert forall|key: K::V| has_key(after, key) == (has_key(before, key) && key != gone) by {
        if has_key(after, key) {
            let q = position(after, key);
            assert(after[q].0@ == key);
            if q == p {
                assert(before[before.len() - 1].0@ == key);
            } else {
                assert(before[q].0@ == key);
            }
        }
        if has_key(before, key) && key != gone {
            let q = position(before, key);
            assert(before[q].0@ == key);
            if q == before.len() - 1 {
                assert(after[p].0@ == key);
            } else {
                assert(after[q].0@ == key);
            }
        }
    }
    assert forall|key: K::V| has_key(after, key) implies as_map(after)[key] == as_map(before)[key] by {
        let q = position(after, key);
        lemma_entry(after, q);
        if q == p {
            lemma_entry(before, before.len() - 1);
        } else {
            lemma_entry(before, q);
        }
    }
    assert(as_map(after) =~= as_map(before).remove(gone));
}

/// A map from keys to numbers.
#[derive(Debug)]
pub struct Table<K: Key> {
    entries: Vec<(K, usize)>,
}

impl<K: Key> View for Table<K> {
    type V = Map<K::V, usize>;

    closed spec fn view(&self) -> Map<K::V, usize> {
        as_map(self.entries@)
    }
}

impl<K: Key> Table<K> {
    /// No key stands twice in the table.
    pub closed spec fn wf(&self) -> bool {
        distinct_keys(self.entries@)
    }

    /// The empty table.
    pub fn new() -> (res: Table<K>)
        ensures
            res.wf(),
            res@ == Map::<K::V, usize>::empty(),
    {
        let res = Table { entries: Vec::new() };
        assert(res@ =~= Map::<K::V, usize>::empty());
        res
    }

    /// The entries, in no order that callers can rely on.
    pub fn entries(&self) -> (res: &Vec<(K, usize)>)
        requires
            self.wf(),
        ensures
            distinct_keys(res@),
            as_map(res@) == self@,
    {
        &self.entries
    }

    fn find(&self, key: &K) -> (res: Option<usize>)
        requires
            self.wf(),
        ensures
            match res {
                Some(i) => i < self.entries@.len() && self.entries@[i as int].0@ == key@,
                None => !self@.contains_key(key@),
            },
    {
        let mut i: usize = 0;
        while i < self.entries.len()
            invariant
                0 <= i <= self.entries@.len(),
                forall|j: int| 0 <= j < i ==> (#[trigger] self.entries@[j]).0@ != key@,
            decreases self.entries@.len() - i,
        {
            if self.entries[i].0.same_key(key) {
                return Some(i);
            }
            i = i + 1;
        }
        None
    }

    /// The number that belongs to a key.
    pub fn get(&self, key: &K) -> (res: Option<&usize>)
        requires
            self.wf(),
        ensures
            match res {
                Some(v) => self@.contains_key(key@) && *v == self@[key@],
                None => !self@.contains_key(key@),
            },
    {
        match self.find(key) {
            Some(i) => {
                proof {
                    lemma_entry(self.entries@, i as int);
                }
                Some(&self.entries[i].1)
            },
            None => None,
        }
    }

    /// Takes a key out and hands out the number that belonged to it.
    pub fn remove(&mut self, key: &K) -> (res: Option<usize>)
        requires
            old(self).wf(),
        ensures
            final(self).wf(),
            final(self)@ == old(self)@.remove(key@),
            match res {
                Some(v) => old(self)@.contains_key(key@) && v == old(self)@[key@],
                None => !old(self)@.contains_key(key@),
            },
    {
        match self.find(key) {
            Some(i) => {
                let ghost before = self.entries@;
                let gone = self.entries.swap_remove(i);
                proof {
                    lemma_entry(before, i as int);
                    assert(self.entries@ =~= before.update(i as int, before.last()).drop_last());
                    lemma_take_out(before, self.entries@, i as int);
                }
                Some(gone.1)
            },
            None => {
                assert(self@.remove(key@) =~= self@);
                None
            },
        }
    }

    /// Gives a key a number, in place of the one it may have had.
    pub fn insert(&mut self, key: K, value: usize)
        requires
            old(self).wf(),
        ensures
            final(self).wf(),
            final(self)@ == old(self)@.insert(key@, value),
    {
        let ghost before = self@;
        let _previous = self.remove(&key);
        proof {
            assert(!self@.contains_key(key@));
            lemma_push(self.entries@, (key, value));
            assert(before.remove(key@).insert(key@, value) =~= before.insert(key@, value));
        }
        self.entries.push((key, value));
    }

    /// Gives a key a number, unless it has one.
    pub fn or_insert(&mut self, key: K, value: usize)
        requires
            old(self).wf(),
        ensures
            final(self).wf(),
            final(self)@ == if old(self)@.contains_key(key@) {
                old(self)@
            } else {
                old(self)@.insert(key@, value)
            },
    {
        match self.find(&key) {
            Some(i) => {
                proof {
                    lemma_entry(self.entries@, i as int);
                }
            },
            None => {
                proof {
                    lemma_push(self.entries@, (key, value));
                }
                self.entries.push((key, value));
            },
        }
    }
}

} // verus!
