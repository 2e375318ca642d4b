//! Small maps from endpoints to copyable values, kept as lists of entries
//! without repeated keys.
use vstd::prelude::*;
use crate::network::Endpoint;

verus! {

/// A map from endpoints to values, in insertion order.
///
/// Held as a list of distinct keys rather than a `HashMap`: vstd's hash map
/// specification gives lookups a meaning only for keys whose hashing it
/// models (integers, `bool` and boxes of them), not for a struct of this
/// library such as `Endpoint`; and an endpoint, an IPv6 address with a port,
/// needs more bits than the widest of those integers.
pub struct EndpointMap<V> {
    entries: Vec<(Endpoint, V)>,
}

/// No endpoint occurs twice.
pub open spec fn keys_unique<V>(e: Seq<(Endpoint, V)>) -> bool {
    forall|i: int, j: int| 0 <= i < j < e.len() ==> e[i].0 != e[j].0
}

/// The map that a list of entries without repeated keys denotes.
pub open spec fn entries_map<V>(e: Seq<(Endpoint, V)>) -> Map<Endpoint, V>
    decreases e.len(),
{
    if e.len() == 0 {
        Map::empty()
    } else {
        entries_map(e.drop_last()).insert(e.last().0, e.last().1)
    }
}

/// An entry's key is in the map, with the entry's value.
pub proof fn lemma_entries_map_index<V>(e: Seq<(Endpoint, V)>, i: int)
    requires
        keys_unique(e),
        0 <= i < e.len(),
    ensures
        entries_map(e).contains_key(e[i].0),
        entries_map(e)[e[i].0] == e[i].1,
    decreases e.len(),
{
    if i < e.len() - 1 {
        assert(keys_unique(e.drop_last()));
        lemma_entries_map_index(e.drop_last(), i);
    }
}

/// A key of the map is the key of some entry.
pub proof fn lemma_entries_map_key<V>(e: Seq<(Endpoint, V)>, k: Endpoint)
    ensures
        entries_map(e).contains_key(k) <==> exists|i: int| 0 <= i < e.len() && e[i].0 == k,
    decreases e.len(),
{
    if e.len() > 0 {
        lemma_entries_map_key(e.drop_last(), k);
        if entries_map(e.drop_last()).contains_key(k) {
            let i = choose|i: int| 0 <= i < e.drop_last().len() && e.drop_last()[i].0 == k;
            assert(e[i].0 == k);
        }
        if exists|i: int| 0 <= i < e.len() && e[i].0 == k {
            let i = choose|i: int| 0 <= i < e.len() && e[i].0 == k;
            if i < e.len() - 1 {
                assert(e.drop_last()[i].0 == k);
            }
        }
    }
}

impl<V: Copy> EndpointMap<V> {
    /// The map denoted.
    pub closed spec fn view(&self) -> Map<Endpoint, V> {
        entries_map(self.entries@)
    }

    /// Well-formedness: no endpoint occurs twice.
    pub closed spec fn wf(&self) -> bool {
        keys_unique(self.entries@)
    }

    /// The entries, in insertion order.
    pub closed spec fn entry_seq(&self) -> Seq<(Endpoint, V)> {
        self.entries@
    }

    /// Each entry's key is in the map with the entry's value, the entries
    /// have distinct keys, and each key of the map is some entry's key.
    pub proof fn lemma_entries(&self)
        requires
            self.wf(),
        ensures
            forall|i: int| 0 <= i < self.entry_seq().len() ==> self.view().contains_key(
                #[trigger] self.entry_seq()[i].0,
            ) && self.view()[self.entry_seq()[i].0] == self.entry_seq()[i].1,
            forall|i: int, j: int|
                0 <= i < j < self.entry_seq().len() ==> #[trigger] self.entry_seq()[i].0
                    != #[trigger] self.entry_seq()[j].0,
            forall|k: Endpoint| #[trigger]
                self.view().contains_key(k) ==> exists|i: int|
                    0 <= i < self.entry_seq().len() && self.entry_seq()[i].0 == k,
    {
        assert forall|i: int| 0 <= i < self.entry_seq().len() implies self.view().contains_key(
            #[trigger] self.entry_seq()[i].0,
        ) && self.view()[self.entry_seq()[i].0] == self.entry_seq()[i].1 by {
            lemma_entries_map_index(self.entries@, i);
        }
        assert forall|k: Endpoint| #[trigger] self.view().contains_key(k) implies exists|i: int|
            0 <= i < self.entry_seq().len() && self.entry_seq()[i].0 == k by {
            lemma_entries_map_key(self.entries@, k);
            let i = choose|i: int| 0 <= i < self.entries@.len() && self.entries@[i].0 == k;
            assert(self.entry_seq()[i].0 == k);
        }
    }

    /// An empty map.
    pub fn new() -> (m: Self)
        ensures
            m.wf(),
            m.view() == Map::<Endpoint, V>::empty(),
            m.entry_seq().len() == 0,
    {
        EndpointMap { entries: Vec::new() }
    }

    fn index_of(&self, k: Endpoint) -> (r: Option<usize>)
        requires
            self.wf(),
        ensures
            r matches Some(i) ==> i < self.entries@.len() && self.entries@[i as int].0 == k,
            r is None ==> forall|i: int| 0 <= i < self.entries@.len() ==> self.entries@[i].0 != k,
    {
        for i in 0..self.entries.len()
            invariant
                forall|j: int| 0 <= j < i ==> self.entries@[j].0 != k,
        {
            if self.entries[i].0 == k {
                return Some(i);
            }
        }
        None
    }

    /// The value stored for `k`.
    pub fn get(&self, k: Endpoint) -> (r: Option<V>)
        requires
            self.wf(),
        ensures
            self.view().contains_key(k) ==> r == Some(self.view()[k]),
            !self.view().contains_key(k) ==> r is None,
    {
        proof {
            lemma_entries_map_key(self.entries@, k);
        }
        match self.index_of(k) {
            Some(i) => {
                proof {
                    lemma_entries_map_index(self.entries@, i as int);
                }
                Some(self.entries[i].1)
            },
            None => None,
        }
    }

    /// Stores `v` for `k`, replacing any earlier value.
    pub fn insert(&mut self, k: Endpoint, v: V)
        requires
            old(self).wf(),
        ensures
            final(self).wf(),
            final(self).view() == old(self).view().insert(k, v),
    {
        proof {
            lemma_entries_map_key(self.entries@, k);
        }
        match self.index_of(k) {
            Some(i) => {
                let ghost before = self.entries@;
                self.entries.set(i, (k, v));
                proof {
                    assert(keys_unique(self.entries@));
                    lemma_view_update(before, i as int, v);
                }
            },
            None => {
                let ghost before = self.entries@;
                self.entries.push((k, v));
                proof {
                    assert(self.entries@.drop_last() =~= before);
                }
            },
        }
    }

    /// Removes the value stored for `k` and returns it.
    pub fn remove(&mut self, k: Endpoint) -> (r: Option<V>)
        requires
            old(self).wf(),
        ensures
            final(self).wf(),
            final(self).view() == old(self).view().remove(k),
            old(self).view().contains_key(k) ==> r == Some(old(self).view()[k]),
            !old(self).view().contains_key(k) ==> r is None,
    {
        proof {
            lemma_entries_map_key(self.entries@, k);
        }
        match self.index_of(k) {
            Some(i) => {
                let ghost before = self.entries@;
                proof {
                    lemma_entries_map_index(before, i as int);
                }
                let e = self.entries.remove(i);
                proof {
                    assert(self.entries@ =~= before.remove(i as int));
                    lemma_view_remove(before, i as int);
                }
                Some(e.1)
            },
            None => {
                proof {
                    assert(self.view() =~= self.view().remove(k));
                }
                None
            },
        }
    }

    /// Removes every entry.
    pub fn clear(&mut self)
        ensures
            final(self).wf(),
            final(self).view() == Map::<Endpoint, V>::empty(),
            final(self).entry_seq().len() == 0,
    {
        self.entries = Vec::new();
    }

    /// Number of entries.
    pub fn len(&self) -> (n: usize)
        ensures
            n == self.entry_seq().len(),
    {
        self.entries.len()
    }

    /// The entry at position `i`, in insertion order.
    pub fn entry_at(&self, i: usize) -> (r: (Endpoint, V))
        requires
            i < self.entry_seq().len(),
        ensures
            r == self.entry_seq()[i as int],
    {
        self.entries[i]
    }
}

/// Replacing the value of one entry replaces it in the map.
pub proof fn lemma_view_update<V>(e: Seq<(Endpoint, V)>, i: int, v: V)
    requires
        keys_unique(e),
        0 <= i < e.len(),
    ensures
        entries_map(e.update(i, (e[i].0, v))) == entries_map(e).insert(e[i].0, v),
    decreases e.len(),
{
    let e2 = e.update(i, (e[i].0, v));
    if i == e.len() - 1 {
        assert(e2.drop_last() =~= e.drop_last());
        assert(entries_map(e2) =~= entries_map(e).insert(e[i].0, v));
    } else {
        assert(e2.drop_last() =~= e.drop_last().update(i, (e[i].0, v)));
        assert(keys_unique(e.drop_last()));
        lemma_view_update(e.drop_last(), i, v);
        assert(e.last().0 != e[i].0);
        assert(entries_map(e2) =~= entries_map(e).insert(e[i].0, v));
    }
}

/// Removing an entry removes its key from the map.
pub proof fn lemma_view_remove<V>(e: Seq<(Endpoint, V)>, i: int)
    requires
        keys_unique(e),
        0 <= i < e.len(),
    ensures
        keys_unique(e.remove(i)),
        entries_map(e.remove(i)) == entries_map(e).remove(e[i].0),
    decreases e.len(),
{
    let e2 = e.remove(i);
    assert(keys_unique(e2)) by {
        assert forall|a: int, b: int| 0 <= a < b < e2.len() implies e2[a].0 != e2[b].0 by {
            let a0 = if a < i { a } else { a + 1 };
            let b0 = if b < i { b } else { b + 1 };
            assert(e2[a] == e[a0]);
            assert(e2[b] == e[b0]);
        }
    }
    if i == e.len() - 1 {
        assert(e2 =~= e.drop_last());
        lemma_entries_map_key(e.drop_last(), e[i].0);
        assert(entries_map(e2) =~= entries_map(e).remove(e[i].0));
    } else {
        assert(e2.drop_last() =~= e.drop_last().remove(i));
        assert(e2.last() == e.last());
        assert(keys_unique(e.drop_last()));
        lemma_view_remove(e.drop_last(), i);
        assert(e.last().0 != e[i].0);
        assert(entries_map(e2) =~= entries_map(e).remove(e[i].0));
    }
}

} // verus!
