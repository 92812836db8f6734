//! Small tables that hold each key once.

use vstd::prelude::*;
use vstd::seq_lib::*;

verus! {

/// A key that can be told from another.
pub trait Key: Copy {
    fn same(&self, other: &Self) -> (r: bool)
        ensures
            r == (*self == *other),
    ;
}

impl Key for usize {
    fn same(&self, other: &Self) -> (r: bool) {
        *self == *other
    }
}

/// A table from keys to values.
pub struct Table<K: Key, V> {
    entries: Vec<(K, V)>,
}

/// What entries with different keys map to.
pub open spec fn entries_map<K, V>(entries: Seq<(K, V)>) -> Map<K, V>
    decreases entries.len(),
{
    if entries.len() == 0 {
        Map::empty()
    } else {
        entries_map(entries.drop_last()).insert(entries.last().0, entries.last().1)
    }
}

pub open spec fn keys_differ<K, V>(entries: Seq<(K, V)>) -> bool {
    forall|i: int, j: int|
        0 <= i < j < entries.len() ==> (#[trigger] entries[i]).0 != (#[trigger] entries[j]).0
}

proof fn lemma_entries_map<K, V>(entries: Seq<(K, V)>, key: K)
    requires
        keys_differ(entries),
    ensures
        entries_map(entries).dom().contains(key) <==> exists|i: int|
            0 <= i < entries.len() && (#[trigger] entries[i]).0 == key,
        forall|i: int|
            0 <= i < entries.len() && (#[trigger] entries[i]).0 == key ==> entries_map(
                entries,
            )[key] == entries[i].1,
    decreases entries.len(),
{
    if entries.len() > 0 {
        let rest = entries.drop_last();
        assert forall|i: int, j: int| 0 <= i < j < rest.len() implies (#[trigger] rest[i]).0 != (
        #[trigger] rest[j]).0 by {
            assert(rest[i] == entries[i] && rest[j] == entries[j]);
        }
        lemma_entries_map(rest, key);
        let last = entries.len() - 1;
        assert(entries[last].0 == entries.last().0);
        if entries_map(rest).dom().contains(key) {
            let i = choose|i: int| 0 <= i < rest.len() && (#[trigger] rest[i]).0 == key;
            assert(entries[i].0 == key);
            assert(entries[i].0 != entries[last].0);
        }
        assert forall|i: int| 0 <= i < entries.len() && (#[trigger] entries[i]).0 == key implies
            entries_map(entries)[key] == entries[i].1 by {
            if i < last {
                assert(rest[i] == entries[i]);
                assert(entries[i].0 != entries[last].0);
            }
        }
        if exists|i: int| 0 <= i < entries.len() && (#[trigger] entries[i]).0 == key {
            let i = choose|i: int| 0 <= i < entries.len() && (#[trigger] entries[i]).0 == key;
            if i < last {
                assert(rest[i].0 == key);
            }
        }
    }
}

proof fn lemma_entries_remove<K, V>(entries: Seq<(K, V)>, i: int)
    requires
        keys_differ(entries),
        0 <= i < entries.len(),
    ensures
        keys_differ(entries.remove(i)),
        entries_map(entries.remove(i)) == entries_map(entries).remove(entries[i].0),
{
    let key = entries[i].0;
    let after = entries.remove(i);
    assert forall|a: int, b: int| 0 <= a < b < after.len() implies (#[trigger] after[a]).0 != (
    #[trigger] after[b]).0 by {
        let a0 = if a < i {
            a
        } else {
            a + 1
        };
        let b0 = if b < i {
            b
        } else {
            b + 1
        };
        assert(after[a] == entries[a0] && after[b] == entries[b0]);
    }
    assert forall|k: K|
        entries_map(after).dom().contains(k) <==> entries_map(entries).remove(key).dom().contains(
            k,
        ) by {
        lemma_entries_map(entries, k);
        lemma_entries_map(after, k);
        if entries_map(after).dom().contains(k) {
            let a = choose|a: int| 0 <= a < after.len() && (#[trigger] after[a]).0 == k;
            let a0 = if a < i {
                a
            } else {
                a + 1
            };
            assert(entries[a0].0 == k);
            assert(entries[a0].0 != entries[i].0);
        }
        if entries_map(entries).dom().contains(k) && k != key {
            let a = choose|a: int| 0 <= a < entries.len() && (#[trigger] entries[a]).0 == k;
            let a0 = if a < i {
                a
            } else {
                a - 1
            };
            assert(after[a0].0 == k);
        }
    }
    assert forall|k: K| entries_map(after).dom().contains(k) implies entries_map(after)[k]
        == entries_map(entries)[k] by {
        lemma_entries_map(entries, k);
        lemma_entries_map(after, k);
        let a = choose|a: int| 0 <= a < after.len() && (#[trigger] after[a]).0 == k;
        let a0 = if a < i {
            a
        } else {
            a + 1
        };
        assert(entries[a0] == after[a]);
    }
    assert(entries_map(after) =~= entries_map(entries).remove(key));
}

impl<K: Key, V> Table<K, V> {
    pub closed spec fn view(&self) -> Map<K, V> {
        entries_map(self.entries@)
    }

    #[verifier::type_invariant]
    spec fn well_formed(self) -> bool {
        keys_differ(self.entries@)
    }

    pub fn new() -> (r: Self)
        ensures
            r@ == Map::<K, V>::empty(),
    {
        Table { entries: Vec::new() }
    }

    fn place(&self, key: K) -> (r: Option<usize>)
        ensures
            match r {
                Some(i) => i < self.entries@.len() && self.entries@[i as int].0 == key,
                None => !self@.dom().contains(key),
            },
    {
        proof {
            use_type_invariant(self);
            lemma_entries_map(self.entries@, key);
        }
        let mut i: usize = 0;
        while i < self.entries.len()
            invariant
                i <= self.entries@.len(),
                forall|j: int| 0 <= j < i ==> (#[trigger] self.entries@[j]).0 != key,
            decreases self.entries@.len() - i,
        {
            if self.entries[i].0.same(&key) {
                return Some(i);
            }
            i += 1;
        }
        None
    }

    pub fn contains_key(&self, key: K) -> (r: bool)
        ensures
            r == self@.dom().contains(key),
    {
        proof {
            use_type_invariant(self);
            lemma_entries_map(self.entries@, key);
        }
        self.place(key).is_some()
    }

    pub fn get(&self, key: K) -> (r: Option<&V>)
        ensures
            match r {
                Some(value) => self@.dom().contains(key) && self@[key] == *value,
                None => !self@.dom().contains(key),
            },
    {
        proof {
            use_type_invariant(self);
            lemma_entries_map(self.entries@, key);
        }
        match self.place(key) {
            Some(i) => Some(&self.entries[i].1),
            None => None,
        }
    }

    /// Adds a key that is not there yet.
    pub fn insert(&mut self, key: K, value: V)
        requires
            !old(self)@.dom().contains(key),
        ensures
            final(self)@ == old(self)@.insert(key, value),
    {
        proof {
            use_type_invariant(&*self);
            lemma_entries_map(self.entries@, key);
        }
        let mut entries: Vec<(K, V)> = Vec::new();
        std::mem::swap(&mut entries, &mut self.entries);
        let ghost before = entries@;
        entries.push((key, value));
        proof {
            assert(entries@.drop_last() =~= before);
            assert forall|i: int, j: int| 0 <= i < j < entries@.len() implies (
            #[trigger] entries@[i]).0 != (#[trigger] entries@[j]).0 by {
                assert(entries@[i] == before[i]);
                if j < before.len() {
                    assert(entries@[j] == before[j]);
                }
            }
        }
        self.entries = entries;
    }

    /// Takes a key out.
    pub fn remove(&mut self, key: K) -> (r: Option<V>)
        ensures
            final(self)@ == old(self)@.remove(key),
            match r {
                Some(value) => old(self)@.dom().contains(key) && old(self)@[key] == value,
                None => !old(self)@.dom().contains(key),
            },
    {
        proof {
            use_type_invariant(&*self);
            lemma_entries_map(self.entries@, key);
        }
        let ghost before = self@;
        match self.place(key) {
            Some(i) => {
                proof {
                    lemma_entries_remove(self.entries@, i as int);
                }
                let mut entries: Vec<(K, V)> = Vec::new();
                std::mem::swap(&mut entries, &mut self.entries);
                let taken = entries.remove(i);
                self.entries = entries;
                Some(taken.1)
            },
            None => {
                assert(before.remove(key) =~= before);
                None
            },
        }
    }

    /// Empties the table and hands its entries out, each key once.
    pub fn drain(&mut self) -> (r: Vec<(K, V)>)
        ensures
            final(self)@ == Map::<K, V>::empty(),
            entries_hold(r@, old(self)@),
    {
        proof {
            use_type_invariant(&*self);
        }
        let mut entries: Vec<(K, V)> = Vec::new();
        std::mem::swap(&mut entries, &mut self.entries);
        proof {
            assert forall|k: K| old(self)@.dom().contains(k) <==> exists|i: int|
                0 <= i < entries@.len() && (#[trigger] entries@[i]).0 == k by {
                lemma_entries_map(entries@, k);
            }
            assert forall|i: int| 0 <= i < entries@.len() implies old(self)@[(
            #[trigger] entries@[i]).0] == entries@[i].1 by {
                lemma_entries_map(entries@, entries@[i].0);
            }
        }
        entries
    }
}

/// Whether entries are those of a map, each key once.
pub open spec fn entries_hold<K, V>(entries: Seq<(K, V)>, map: Map<K, V>) -> bool {
    &&& keys_differ(entries)
    &&& forall|k: K| #[trigger]
        map.dom().contains(k) <==> exists|i: int|
            0 <= i < entries.len() && (#[trigger] entries[i]).0 == k
    &&& forall|i: int| 0 <= i < entries.len() ==> map[(#[trigger] entries[i]).0] == entries[i].1
}

} // verus!
