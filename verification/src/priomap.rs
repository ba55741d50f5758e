//! A map in layers: values go into the top layer, and a lookup finds the
//! value of the highest layer that has the key.

use vstd::prelude::*;
use vstd::std_specs::hash::obeys_key_model;
use std::collections::HashMap;
use std::hash::Hash;

verus! {

/// The value that the highest layer with the key holds for it.
pub open spec fn layered_lookup<K, V>(layers: Seq<Map<K, V>>, key: K) -> Option<V>
    decreases layers.len(),
{
    if layers.len() == 0 {
        None
    } else if layers.last().contains_key(key) {
        Some(layers.last()[key])
    } else {
        layered_lookup(layers.drop_last(), key)
    }
}

/// A priority-queue map. Operates on layers; values are inserted into the
/// highest-priority layer, and lookups return the highest-priority match.
pub struct PrioMap<K: Hash + Eq, V> {
    layers: Vec<HashMap<K, V>>,
}

impl<K: Hash + Eq, V> View for PrioMap<K, V> {
    type V = Seq<Map<K, V>>;

    /// The layers, the one of highest priority last.
    closed spec fn view(&self) -> Seq<Map<K, V>> {
        Seq::new(self.layers@.len(), |i: int| self.layers@[i]@)
    }
}

impl<K: Hash + Eq, V> PrioMap<K, V> {
    /// Creates a new PrioMap with a single layer.
    pub fn new() -> (pm: PrioMap<K, V>)
        ensures
            pm@ == seq![Map::<K, V>::empty()],
    {
        let mut layers: Vec<HashMap<K, V>> = Vec::new();
        layers.push(HashMap::new());
        let pm = PrioMap { layers };
        assert(pm@ =~= seq![Map::<K, V>::empty()]);
        pm
    }

    /// Creates a new higher-priority layer.
    pub fn push(&mut self)
        ensures
            final(self)@ == old(self)@.push(Map::<K, V>::empty()),
    {
        self.layers.push(HashMap::new());
        assert(self@ =~= old(self)@.push(Map::<K, V>::empty()));
    }

    /// Removes the highest-priority layer and returns it, if any.
    pub fn pop(&mut self) -> (layer: Option<HashMap<K, V>>)
        ensures
            old(self)@.len() == 0 ==> layer.is_none() && final(self)@ == old(self)@,
            old(self)@.len() > 0 ==> layer.is_some() && layer.unwrap()@ == old(self)@.last()
                && final(self)@ == old(self)@.drop_last(),
    {
        let layer = self.layers.pop();
        assert(old(self)@.len() > 0 ==> self@ =~= old(self)@.drop_last());
        assert(old(self)@.len() == 0 ==> self@ =~= old(self)@);
        layer
    }

    /// Inserts a value to the highest-priority layer, shadowing values
    /// below that use the same key. If the layer already contains the key,
    /// its previous value is returned.
    pub fn insert(&mut self, key: K, value: V) -> (prev: Option<V>)
        requires
            old(self)@.len() > 0,
        ensures
            obeys_key_model::<K>() ==> final(self)@ == old(self)@.drop_last().push(
                old(self)@.last().insert(key, value),
            ) && prev == (if old(self)@.last().contains_key(key) {
                Some(old(self)@.last()[key])
            } else {
                None
            }),
    {
        let top = self.layers.len() - 1;
        let prev = self.layers[top].insert(key, value);
        proof {
            if obeys_key_model::<K>() {
                assert(self@ =~= old(self)@.drop_last().push(old(self)@.last().insert(key, value)));
            }
        }
        prev
    }

    /// Looks up the value of the given key. Higher-priority layers shadow
    /// the values of lower ones if they have the same key.
    pub fn lookup(&self, key: K) -> (value: Option<&V>)
        ensures
            obeys_key_model::<K>() ==> (match value {
                Some(v) => Some(*v),
                None => None,
            }) == layered_lookup(self@, key),
    {
        broadcast use vstd::std_specs::hash::group_hash_axioms;

        let mut i: usize = self.layers.len();
        let ghost whole = self@;
        assert(whole.take(i as int) =~= whole);
        while i > 0
            invariant
                i <= self.layers.len(),
                whole == self@,
                obeys_key_model::<K>() ==> layered_lookup(whole, key) == layered_lookup(
                    whole.take(i as int),
                    key,
                ),
            decreases i,
        {
            i -= 1;
            let ghost part = whole.take(i + 1);
            assert(part.last() == self.layers@[i as int]@);
            assert(part.drop_last() =~= whole.take(i as int));
            match self.layers[i].get(&key) {
                Some(v) => {
                    return Some(v);
                },
                None => {},
            }
        }
        None
    }
}

/// Shadowing: a value put into a new layer is the one found, and once the
/// layer is removed the value below is found again.
pub proof fn lemma_layers_shadow<K, V>(layers: Seq<Map<K, V>>, key: K, value: V)
    ensures
        layered_lookup(layers.push(Map::<K, V>::empty().insert(key, value)), key) == Some(value),
        layered_lookup(layers.push(Map::<K, V>::empty().insert(key, value)).drop_last(), key)
            == layered_lookup(layers, key),
{
    let pushed = layers.push(Map::<K, V>::empty().insert(key, value));
    assert(pushed.drop_last() =~= layers);
}

/// Keys that are machine numbers are hashed and compared as a map needs
/// it, so what `insert` and `lookup` promise holds of them outright. (Of
/// a key type of the caller's own it holds if its `Hash` and `Eq` agree.)
pub proof fn lemma_number_keys()
    ensures
        obeys_key_model::<u8>(),
        obeys_key_model::<u16>(),
        obeys_key_model::<u32>(),
        obeys_key_model::<u64>(),
        obeys_key_model::<usize>(),
        obeys_key_model::<i32>(),
        obeys_key_model::<i64>(),
{
    broadcast use vstd::std_specs::hash::group_hash_axioms;

}

} // verus!
