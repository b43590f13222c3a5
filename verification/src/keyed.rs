use vstd::prelude::*;

use crate::kinds::StateKey;

verus! {

/// A table with one optional value per key of `K`: the shape in which the engine
/// reports partial state (the value of every key that changed, nothing for the rest).
pub struct KeyedState<K: StateKey, V> {
    slots: Vec<Option<V>>,
    key: core::marker::PhantomData<K>,
}

/// The value last written for `k` in a sequence of writes, if any.
pub open spec fn last_value<K, V>(writes: Seq<(K, V)>, k: K) -> Option<V>
    decreases writes.len(),
{
    if writes.len() == 0 {
        None
    } else if writes.last().0 == k {
        Some(writes.last().1)
    } else {
        last_value(writes.drop_last(), k)
    }
}

impl<K: StateKey, V> KeyedState<K, V> {
    /// One slot per key.
    #[verifier::type_invariant]
    spec fn slots_cover_keys(self) -> bool {
        self.slots@.len() == K::key_count()
    }

    /// The value held for `k`.
    pub closed spec fn state(self, k: K) -> Option<V> {
        self.slots@[k.key_index() as int]
    }

    /// A table that holds no value.
    pub fn new() -> (r: Self)
        ensures
            forall|k: K| #[trigger] r.state(k) is None,
    {
        let n = K::count();
        let mut slots: Vec<Option<V>> = Vec::new();
        let mut i: usize = 0;
        while i < n
            invariant
                n == K::key_count(),
                i <= n,
                slots@.len() == i,
                forall|j: int| 0 <= j < i ==> (#[trigger] slots@[j]) is None,
            decreases n - i,
        {
            slots.push(None);
            i = i + 1;
        }
        proof {
            assert forall|k: K| #[trigger] slots@[k.key_index() as int] is None by {
                K::lemma_index_bounded(k);
            }
        }
        KeyedState { slots, key: core::marker::PhantomData }
    }

    /// The value held for `key`.
    pub fn get_state(&self, key: &K) -> (r: &Option<V>)
        ensures
            *r == self.state(*key),
    {
        proof {
            use_type_invariant(self);
            K::lemma_index_bounded(*key);
        }
        &self.slots[key.index()]
    }

    /// Holds `value` for `key`; the other keys keep their values.
    pub fn set_state(&mut self, key: K, value: Option<V>)
        ensures
            final(self).state(key) == value,
            forall|k: K| k != key ==> #[trigger] final(self).state(k) == old(self).state(k),
    {
        proof {
            use_type_invariant(&*self);
            K::lemma_index_bounded(key);
        }
        let i = key.index();
        self.slots[i] = value;
        proof {
            assert forall|k: K| k != key implies #[trigger] self.state(k) == old(self).state(k) by {
                K::lemma_index_injective(k, key);
                K::lemma_index_bounded(k);
            }
        }
    }

    /// The keys that hold a value, with their values, in the order of the keys'
    /// numbers.
    pub fn present_entries(&self) -> (r: Vec<(K, V)>)
        where V: Copy,
        ensures
            forall|i: int| 0 <= i < r@.len() ==> self.state((#[trigger] r@[i]).0) == Some(r@[i].1),
            forall|i: int, j: int|
                0 <= i < j < r@.len() ==> (#[trigger] r@[i]).0.key_index() < (#[trigger] r@[j]).0.key_index(),
            forall|k: K| #[trigger] self.state(k) is Some ==> exists|i: int| 0 <= i < r@.len() && (#[trigger] r@[i]).0 == k,
    {
        proof {
            use_type_invariant(self);
        }
        let n = K::count();
        let mut out: Vec<(K, V)> = Vec::new();
        let mut i: usize = 0;
        while i < n
            invariant
                n == K::key_count(),
                n == self.slots@.len(),
                i <= n,
                forall|a: int| 0 <= a < out@.len() ==> self.state((#[trigger] out@[a]).0) == Some(out@[a].1),
                forall|a: int| 0 <= a < out@.len() ==> (#[trigger] out@[a]).0.key_index() < i,
                forall|a: int, b: int|
                    0 <= a < b < out@.len() ==> (#[trigger] out@[a]).0.key_index() < (#[trigger] out@[b]).0.key_index(),
                forall|k: K| #[trigger] self.state(k) is Some && k.key_index() < i ==> exists|a: int| 0 <= a < out@.len() && (#[trigger] out@[a]).0 == k,
            decreases n - i,
        {
            let key = K::from_index(i);
            let ghost prev = out@;
            match &self.slots[i] {
                Some(v) => {
                    out.push((key, *v));
                    proof {
                        let last = out@.len() - 1;
                        assert(out@[last].0 == key);
                    }
                },
                None => {},
            }
            proof {
                assert forall|k: K| #[trigger] self.state(k) is Some && k.key_index() < i + 1 implies exists|a: int| 0 <= a < out@.len() && (#[trigger] out@[a]).0 == k by {
                    if k.key_index() == i {
                        K::lemma_index_injective(k, key);
                        assert(out@[out@.len() - 1].0 == k);
                    } else {
                        let a = choose|a: int| 0 <= a < prev.len() && (#[trigger] prev[a]).0 == k;
                        assert(out@[a] == prev[a]);
                    }
                }
            }
            i = i + 1;
        }
        proof {
            assert forall|k: K| #[trigger] self.state(k) is Some implies exists|a: int| 0 <= a < out@.len() && (#[trigger] out@[a]).0 == k by {
                K::lemma_index_bounded(k);
            }
        }
        out
    }
}

/// The table that holds, for each key, the value last written for it by `writes`.
pub fn collect_writes<K: StateKey, V: Copy>(writes: &Vec<(K, V)>) -> (r: KeyedState<K, V>)
    ensures
        forall|k: K| #[trigger] r.state(k) == last_value(writes@, k),
{
    let mut table: KeyedState<K, V> = KeyedState::new();
    let mut i: usize = 0;
    while i < writes.len()
        invariant
            i <= writes@.len(),
            forall|k: K| #[trigger] table.state(k) == last_value(writes@.take(i as int), k),
        decreases writes@.len() - i,
    {
        let (key, value) = writes[i];
        table.set_state(key, Some(value));
        proof {
            assert(writes@.take(i + 1).drop_last() =~= writes@.take(i as int));
            assert forall|k: K| #[trigger] table.state(k) == last_value(writes@.take(i + 1), k) by {
                assert(writes@.take(i + 1).last() == writes@[i as int]);
            }
        }
        i = i + 1;
    }
    proof {
        assert(writes@.take(writes@.len() as int) =~= writes@);
    }
    table
}

/// The change report of a set of components: nothing when no component changed;
/// otherwise the table of the value last reported for each key that changed.
pub fn collect_changes<K: StateKey, V: Copy>(changed: &Vec<(K, V)>) -> (r: Option<KeyedState<K, V>>)
    ensures
        r is None <==> changed@.len() == 0,
        r matches Some(t) ==> forall|k: K| #[trigger] t.state(k) == last_value(changed@, k),
{
    if changed.len() == 0 {
        None
    } else {
        Some(collect_writes(changed))
    }
}

} // verus!
