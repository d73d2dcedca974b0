//! A table from keys to values, kept in a vector without repeated keys.

use crate::foreign::{peer_id_bytes, protocol_name};
use libp2p::{PeerId, StreamProtocol};
use vstd::prelude::*;

verus! {

/// A key of a [`KeyedTable`]: a value with a mathematical identity and an
/// executable test for it.
pub trait TableKey: Sized {
    /// What makes two keys the same key.
    type Id;

    /// The identity of this key.
    spec fn id(&self) -> Self::Id;

    /// Whether both keys have the same identity.
    fn same_key(&self, other: &Self) -> (same: bool)
        ensures
            same == (self.id() == other.id()),
    ;
}

impl TableKey for PeerId {
    type Id = Seq<u8>;

    open spec fn id(&self) -> Seq<u8> {
        peer_id_bytes(*self)
    }

    fn same_key(&self, other: &Self) -> (same: bool) {
        *self == *other
    }
}

impl TableKey for StreamProtocol {
    type Id = Seq<char>;

    open spec fn id(&self) -> Seq<char> {
        protocol_name(*self)
    }

    fn same_key(&self, other: &Self) -> (same: bool) {
        *self == *other
    }
}

/// A finite map whose keys are compared by [`TableKey::same_key`].
pub struct KeyedTable<K: TableKey, V> {
    entries: Vec<(K, V)>,
}

impl<K: TableKey, V> View for KeyedTable<K, V> {
    type V = Map<K::Id, V>;

    /// The map that the entries spell out.
    closed spec fn view(&self) -> Map<K::Id, V> {
        Map::new(
            |id: K::Id| self.position(id) is Some,
            |id: K::Id| self.entries@[self.position(id)->0].1,
        )
    }
}

impl<K: TableKey, V> KeyedTable<K, V> {
    /// No two entries have the same key.
    pub closed spec fn wf(&self) -> bool {
        forall|i: int, j: int|
            0 <= i < j < self.entries@.len() ==> (#[trigger] self.entries@[i]).0.id() != (
            #[trigger] self.entries@[j]).0.id()
    }

    /// Where the entry of `id` stands, if there is one.
    closed spec fn position(&self, id: K::Id) -> Option<int> {
        if exists|i: int| 0 <= i < self.entries@.len() && (#[trigger] self.entries@[i]).0.id() == id {
            Some(choose|i: int|
                0 <= i < self.entries@.len() && (#[trigger] self.entries@[i]).0.id() == id)
        } else {
            None
        }
    }

    /// The empty table.
    pub fn new() -> (table: Self)
        ensures
            table.wf(),
            table@ == Map::<K::Id, V>::empty(),
    {
        let table = KeyedTable { entries: Vec::new() };
        assert(table@ =~= Map::<K::Id, V>::empty());
        table
    }

    /// Where the entry of `key` stands.
    fn find(&self, key: &K) -> (found: Option<usize>)
        requires
            self.wf(),
        ensures
            match found {
                Some(at) => at < self.entries@.len() && self.entries@[at as int].0.id()
                    == key.id(),
                None => forall|i: int|
                    0 <= i < self.entries@.len() ==> (#[trigger] self.entries@[i]).0.id()
                        != key.id(),
            },
    {
        let mut at: usize = 0;
        while at < self.entries.len()
            invariant
                at <= self.entries@.len(),
                forall|i: int|
                    0 <= i < at ==> (#[trigger] self.entries@[i]).0.id() != key.id(),
            decreases self.entries@.len() - at,
        {
            if self.entries[at].0.same_key(key) {
                return Some(at);
            }
            at = at + 1;
        }
        None
    }

    /// The value stored for `key`.
    pub fn get(&self, key: &K) -> (found: Option<&V>)
        requires
            self.wf(),
        ensures
            match found {
                Some(value) => self@.contains_key(key.id()) && *value == self@[key.id()],
                None => !self@.contains_key(key.id()),
            },
    {
        match self.find(key) {
            Some(at) => {
                assert(self.position(key.id()) == Some(at as int));
                Some(&self.entries[at].1)
            },
            None => None,
        }
    }

    /// Stores `value` for `key`, in place of any earlier value.
    pub fn insert(&mut self, key: K, value: V)
        requires
            old(self).wf(),
        ensures
            final(self).wf(),
            final(self)@ == old(self)@.insert(key.id(), value),
    {
        let _ = self.remove(&key);
        let ghost before = *self;
        self.entries.push((key, value));
        proof {
            let last = self.entries@.len() - 1;
            assert(self.entries@[last].0.id() == key.id());
            assert forall|i: int| 0 <= i < last implies self.entries@[i] == before.entries@[i]
                && (#[trigger] self.entries@[i]).0.id() != key.id() by {
                if before.entries@[i].0.id() == key.id() {
                    before.lemma_position(i);
                    assert(before@.contains_key(key.id()));
                }
            }
            assert forall|i: int, j: int| 0 <= i < j < self.entries@.len() implies (
            #[trigger] self.entries@[i]).0.id() != (#[trigger] self.entries@[j]).0.id() by {
                assert(self.entries@[i] == before.entries@[i]);
                if j < last {
                    assert(self.entries@[j] == before.entries@[j]);
                }
            }
            assert(self@ =~= before@.insert(key.id(), value)) by {
                assert forall|id: K::Id| #[trigger]
                    self@.contains_key(id) == before@.insert(key.id(), value).contains_key(id)
                    && (self@.contains_key(id) ==> self@[id] == before@.insert(
                    key.id(),
                    value,
                )[id]) by {
                    if id == key.id() {
                        self.lemma_position(last);
                    } else if before@.contains_key(id) {
                        let i = before.position(id)->0;
                        assert(self.entries@[i] == before.entries@[i]);
                        self.lemma_position(i);
                    } else if self@.contains_key(id) {
                        let i = self.position(id)->0;
                        assert(i != last);
                        assert(self.entries@[i] == before.entries@[i]);
                        before.lemma_position(i);
                    }
                }
            }
            assert(self@ =~= old(self)@.insert(key.id(), value));
        }
    }

    /// Takes the value of `key` out of the table.
    pub fn remove(&mut self, key: &K) -> (taken: Option<V>)
        requires
            old(self).wf(),
        ensures
            final(self).wf(),
            final(self)@ == old(self)@.remove(key.id()),
            match taken {
                Some(value) => old(self)@.contains_key(key.id()) && value == old(self)@[key.id()],
                None => !old(self)@.contains_key(key.id()),
            },
    {
        match self.find(key) {
            Some(at) => {
                let ghost before = *self;
                let (_, value) = self.entries.remove(at);
                proof {
                    before.lemma_position(at as int);
                    assert(forall|i: int|
                        0 <= i < self.entries@.len() ==> #[trigger] self.entries@[i]
                            == before.entries@[if i < at { i } else { i + 1 }]);
                    assert forall|id: K::Id| #[trigger]
                        self@.contains_key(id) == before@.remove(key.id()).contains_key(id) && (
                    self@.contains_key(id) ==> self@[id] == before@[id]) by {
                        if self@.contains_key(id) {
                            let i = self.position(id)->0;
                            let k = if i < at { i } else { i + 1 };
                            assert(self.entries@[i] == before.entries@[k]);
                            before.lemma_position(k);
                        } else if before@.contains_key(id) && id != key.id() {
                            let k = before.position(id)->0;
                            assert(k != at);
                            let i = if k < at { k } else { k - 1 };
                            assert(self.entries@[i] == before.entries@[k]);
                            self.lemma_position(i);
                        }
                    }
                    assert(self@ =~= before@.remove(key.id()));
                }
                Some(value)
            },
            None => {
                assert(self@ =~= old(self)@.remove(key.id()));
                None
            },
        }
    }

    /// The entry at `i` is the one that stands for its key.
    proof fn lemma_position(&self, i: int)
        requires
            self.wf(),
            0 <= i < self.entries@.len(),
        ensures
            self.position(self.entries@[i].0.id()) == Some(i),
            self@.contains_key(self.entries@[i].0.id()),
            self@[self.entries@[i].0.id()] == self.entries@[i].1,
    {
        let id = self.entries@[i].0.id();
        let p = choose|p: int|
            0 <= p < self.entries@.len() && (#[trigger] self.entries@[p]).0.id() == id;
        assert(self.entries@[p].0.id() == id);
        if p < i {
            assert(self.entries@[p].0.id() != self.entries@[i].0.id());
        }
        if i < p {
            assert(self.entries@[i].0.id() != self.entries@[p].0.id());
        }
    }
}

/// Peers are the same key when their bytes are equal, and protocols when their
/// names are.
pub proof fn keys_are_bytes_and_names(peer: PeerId, protocol: StreamProtocol)
    ensures
        peer.id() == peer_id_bytes(peer),
        protocol.id() == protocol_name(protocol),
{
}

} // verus!
