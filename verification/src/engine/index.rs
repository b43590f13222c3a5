use vstd::prelude::*;

use crate::keyed::last_value;
use crate::kinds::StateKey;

verus! {

/// A hash map from key numbers to entity ids (the bits of an entity), held in the
/// entity runtime's own hash map type.
#[verifier::external_body]
pub struct EntityTable {
    inner: bevy::utils::HashMap<u64, u64>,
}

/// The entries of an entity table.
pub uninterp spec fn entity_table_entries(table: EntityTable) -> Map<u64, u64>;

impl EntityTable {
    /// `HashMap::default` of the runtime's hash map (`hashbrown`): a map without
    /// entries.
    #[verifier::external_body]
    fn empty() -> (table: EntityTable)
        ensures
            entity_table_entries(table) =~= Map::empty(),
    {
        EntityTable { inner: bevy::utils::HashMap::default() }
    }

    /// `HashMap::insert`: afterwards `key` maps to `value` and every other entry is as
    /// it was.
    #[verifier::external_body]
    fn insert(&mut self, key: u64, value: u64)
        ensures
            entity_table_entries(*final(self)) == entity_table_entries(*old(self)).insert(key, value),
    {
        self.inner.insert(key, value);
    }

    /// `HashMap::remove`: afterwards `key` has no entry and every other entry is as it
    /// was.
    #[verifier::external_body]
    fn remove(&mut self, key: u64)
        ensures
            entity_table_entries(*final(self)) == entity_table_entries(*old(self)).remove(key),
    {
        self.inner.remove(&key);
    }

    /// `HashMap::get`: the value of `key`, if it has an entry.
    #[verifier::external_body]
    fn get(&self, key: u64) -> (r: Option<u64>)
        ensures
            r == (if entity_table_entries(*self).dom().contains(key) {
                Some(entity_table_entries(*self)[key])
            } else {
                None
            }),
    {
        self.inner.get(&key).copied()
    }

    /// `HashMap::keys`: every key with an entry, each once, in an order that the
    /// hash map chooses (which order is not stated).
    #[verifier::external_body]
    fn keys(&self) -> (r: Vec<u64>)
        ensures
            r@.to_set() == entity_table_entries(*self).dom(),
            r@.no_duplicates(),
    {
        self.inner.keys().copied().collect()
    }
}

/// Why an indexed lookup found nothing.
#[derive(Clone, Copy, Debug, PartialEq, Eq, Structural)]
pub enum IndexedLookupError {
    /// No entity is indexed under the key.
    KeyNotFound,
    /// An entity is indexed under the key, but it no longer exists.
    ValueNotFound,
}

/// How the entity query answered for an indexed entity.
#[derive(Clone, Copy, Debug, PartialEq, Eq, Structural)]
pub enum QueryOutcome {
    /// The entity has the queried components.
    Found,
    /// The entity does not exist.
    NoSuchEntity,
    /// Any other query error, which the index does not expect.
    Unexpected,
}

/// An index from keys of `K` to the entity that carries each key, kept up to date
/// as entities with the key are added and removed.
pub struct LookupIndex<K: StateKey> {
    inner: EntityTable,
    key: core::marker::PhantomData<K>,
}

impl<K: StateKey> LookupIndex<K> {
    /// The indexed entries, by key number.
    pub closed spec fn entries(self) -> Map<u64, u64> {
        entity_table_entries(self.inner)
    }

    /// The entity indexed under `k`.
    pub open spec fn entity(self, k: K) -> Option<u64> {
        if self.entries().dom().contains(k.key_index() as u64) {
            Some(self.entries()[k.key_index() as u64])
        } else {
            None
        }
    }

    /// An index without entries.
    pub fn new() -> (r: Self)
        ensures
            forall|k: K| #[trigger] r.entity(k) is None,
    {
        LookupIndex { inner: EntityTable::empty(), key: core::marker::PhantomData }
    }

    /// The entity indexed under `key`.
    pub fn get(&self, key: &K) -> (r: Option<u64>)
        ensures
            r == self.entity(*key),
    {
        let n = key.index();
        proof {
            K::lemma_index_bounded(*key);
        }
        self.inner.get(n as u64)
    }

    /// Records that the entity `entity` carries `key`; other keys keep their entities.
    pub fn insert(&mut self, key: K, entity: u64)
        ensures
            final(self).entity(key) == Some(entity),
            forall|k: K| k != key ==> #[trigger] final(self).entity(k) == old(self).entity(k),
    {
        proof {
            K::lemma_index_bounded(key);
        }
        let n = key.index() as u64;
        self.inner.insert(n, entity);
        proof {
            assert forall|k: K| k != key implies #[trigger] self.entity(k) == old(self).entity(k) by {
                K::lemma_index_bounded(k);
                K::lemma_index_injective(k, key);
            }
        }
    }

    /// Forgets the entity of `key`; other keys keep their entities.
    pub fn remove(&mut self, key: &K)
        ensures
            final(self).entity(*key) is None,
            forall|k: K| k != *key ==> #[trigger] final(self).entity(k) == old(self).entity(k),
    {
        proof {
            K::lemma_index_bounded(*key);
        }
        let n = key.index() as u64;
        self.inner.remove(n);
        proof {
            assert forall|k: K| k != *key implies #[trigger] self.entity(k) == old(self).entity(k) by {
                K::lemma_index_bounded(k);
                K::lemma_index_injective(k, *key);
            }
        }
    }

    /// The entity indexed under `key`, which must be indexed.
    pub fn entity_of(&self, key: &K) -> (r: u64)
        requires
            self.entity(*key) is Some,
        ensures
            Some(r) == self.entity(*key),
    {
        self.get(key).unwrap()
    }

    /// The entity indexed under `key`, or why there is none.
    pub fn lookup(&self, key: &K) -> (r: Result<u64, IndexedLookupError>)
        ensures
            r == (match self.entity(*key) {
                Some(e) => Ok(e),
                None => Err(IndexedLookupError::KeyNotFound),
            }),
    {
        match self.get(key) {
            Some(e) => Ok(e),
            None => Err(IndexedLookupError::KeyNotFound),
        }
    }

    /// Every indexed key, each once, in the order the hash map yields them.
    pub fn keys(&self) -> (r: Vec<K>)
        ensures
            r@.no_duplicates(),
            forall|k: K| #[trigger] r@.contains(k) <==> self.entity(k) is Some,
    {
        let numbers = self.inner.keys();
        let count = K::count();
        let mut out: Vec<K> = Vec::new();
        let mut i: usize = 0;
        while i < numbers.len()
            invariant
                count == K::key_count(),
                i <= numbers@.len(),
                numbers@.no_duplicates(),
                numbers@.to_set() == self.entries().dom(),
                forall|a: int|
                    0 <= a < out@.len() ==> exists|j: int|
                        0 <= j < i && (#[trigger] out@[a]).key_index() == numbers@[j],
                forall|j: int|
                    0 <= j < i && #[trigger] numbers@[j] < count ==> exists|a: int|
                        0 <= a < out@.len() && (#[trigger] out@[a]).key_index() == numbers@[j],
                forall|a: int, b: int|
                    0 <= a < b < out@.len() ==> (#[trigger] out@[a]).key_index() != (#[trigger] out@[b]).key_index(),
            decreases numbers@.len() - i,
        {
            let n = numbers[i];
            if n < count as u64 {
                let k = K::from_index(n as usize);
                let ghost prev = out@;
                out.push(k);
                proof {
                    assert forall|a: int|
                        0 <= a < out@.len() implies exists|j: int|
                            0 <= j < i + 1 && (#[trigger] out@[a]).key_index() == numbers@[j] by {
                        if a < prev.len() {
                            assert(out@[a] == prev[a]);
                        } else {
                            assert(out@[a].key_index() == numbers@[i as int]);
                        }
                    }
                    assert forall|j: int|
                        0 <= j < i + 1 && #[trigger] numbers@[j] < count implies exists|a: int|
                            0 <= a < out@.len() && (#[trigger] out@[a]).key_index() == numbers@[j] by {
                        if j < i {
                            let a = choose|a: int| 0 <= a < prev.len() && (#[trigger] prev[a]).key_index() == numbers@[j];
                            assert(out@[a] == prev[a]);
                        } else {
                            assert(out@[out@.len() - 1].key_index() == numbers@[j]);
                        }
                    }
                    assert forall|a: int, b: int|
                        0 <= a < b < out@.len() implies (#[trigger] out@[a]).key_index() != (#[trigger] out@[b]).key_index() by {
                        if b == out@.len() - 1 {
                            assert(out@[a] == prev[a]);
                            let j = choose|j: int| 0 <= j < i && (#[trigger] prev[a]).key_index() == numbers@[j];
                            assert(numbers@[j] != numbers@[i as int]);
                        } else {
                            assert(out@[a] == prev[a]);
                            assert(out@[b] == prev[b]);
                        }
                    }
                }
            }
            i = i + 1;
        }
        proof {
            assert forall|a: int, b: int| 0 <= a < out@.len() && 0 <= b < out@.len() && a != b implies out@[a] != out@[b] by {
                if a < b {
                    assert(out@[a].key_index() != out@[b].key_index());
                } else {
                    assert(out@[b].key_index() != out@[a].key_index());
                }
            }
            assert forall|k: K| #[trigger] out@.contains(k) <==> self.entity(k) is Some by {
                K::lemma_index_bounded(k);
                if out@.contains(k) {
                    let a = choose|a: int| 0 <= a < out@.len() && out@[a] == k;
                    let j = choose|j: int| 0 <= j < numbers@.len() && (#[trigger] out@[a]).key_index() == numbers@[j];
                    assert(numbers@.to_set().contains(numbers@[j]));
                }
                if self.entity(k) is Some {
                    let n = k.key_index() as u64;
                    assert(numbers@.to_set().contains(n));
                    let j = choose|j: int| 0 <= j < numbers@.len() && numbers@[j] == n;
                    assert(numbers@[j] < count);
                    let a = choose|a: int| 0 <= a < out@.len() && (#[trigger] out@[a]).key_index() == numbers@[j];
                    K::lemma_index_injective(out@[a], k);
                    assert(out@[a] == k);
                }
            }
        }
        out
    }
}

/// What an indexed query answers when the index found an entity: the query's items,
/// or `ValueNotFound` when the entity no longer exists; any other query error is
/// not expected here.
pub fn query_outcome(outcome: QueryOutcome) -> (r: Result<(), IndexedLookupError>)
    requires
        outcome != QueryOutcome::Unexpected,
    ensures
        outcome == QueryOutcome::Found ==> r == Ok::<(), IndexedLookupError>(()),
        outcome == QueryOutcome::NoSuchEntity ==> r == Err::<(), IndexedLookupError>(
            IndexedLookupError::ValueNotFound,
        ),
{
    match outcome {
        QueryOutcome::Found => Ok(()),
        _ => Err(IndexedLookupError::ValueNotFound),
    }
}

/// One step of an index for a component event on `event.0`: `Some(e)` when the key's
/// component was added to entity `e` (what `insert` does), `None` when it was
/// removed (what `remove` does); every other key keeps its entity.
pub open spec fn index_step<K: StateKey>(
    before: LookupIndex<K>,
    after: LookupIndex<K>,
    event: (K, Option<u64>),
) -> bool {
    &&& after.entity(event.0) == event.1
    &&& forall|k: K| k != event.0 ==> #[trigger] after.entity(k) == before.entity(k)
}

/// The entity that carries `k` after a run of component events: the entity of the
/// last event on `k`, nothing when that event removed it or there was none.
pub open spec fn carrier_after<K>(events: Seq<(K, Option<u64>)>, k: K) -> Option<u64> {
    match last_value(events, k) {
        Some(carrier) => carrier,
        None => None,
    }
}

/// The index follows the components: starting from an empty index, when each step
/// inserts the key of a component added to an entity or removes the key of a
/// component removed (as the index's observers do), the index holds for every key
/// the entity that last received that key's component, and nothing for a key whose
/// component was removed since or never added.
pub proof fn lemma_index_follows_components<K: StateKey>(
    indexes: Seq<LookupIndex<K>>,
    events: Seq<(K, Option<u64>)>,
    k: K,
)
    requires
        indexes.len() == events.len() + 1,
        forall|key: K| #[trigger] indexes[0].entity(key) is None,
        forall|i: int|
            0 < i < indexes.len() ==> index_step(indexes[i - 1], #[trigger] indexes[i], events[i - 1]),
    ensures
        indexes.last().entity(k) == carrier_after(events, k),
    decreases events.len(),
{
    if events.len() > 0 {
        let n = events.len() - 1;
        let shorter = indexes.take(indexes.len() - 1);
        assert forall|i: int|
            0 < i < shorter.len() implies index_step(shorter[i - 1], #[trigger] shorter[i], events.drop_last()[i - 1]) by {
            assert(indexes[i] == shorter[i]);
        }
        assert(shorter[0] == indexes[0]);
        lemma_index_follows_components(shorter, events.drop_last(), k);
        assert(index_step(indexes[n], indexes[n + 1], events[n]));
        assert(shorter.last() == indexes[n]);
    }
}

} // verus!
