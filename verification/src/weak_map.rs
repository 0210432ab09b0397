use crate::entity::WeakArchetypeId;
use crate::lifetime::Lifetime;
use crate::lifetime::LifetimeRegistry;
use crate::lifetime::RegistryState;
use std::collections::hash_map::Entry;
use std::collections::HashMap;
use vstd::prelude::*;
use vstd::std_specs::hash::spec_hash_map_iter;
use vstd::std_specs::iter::IteratorSpec;

verus! {

broadcast use vstd::std_specs::hash::group_hash_axioms;

/// The entries whose archetype is alive.
pub open spec fn live_entries<T>(entries: Map<u32, (Lifetime, T)>, reg: RegistryState) -> Map<
    u32,
    (Lifetime, T),
> {
    entries.restrict(Set::new(|id: u32| entries.contains_key(id) && reg.is_alive(entries[id].0)))
}

/// The value that the entries hold for the archetype `id`: the one filed
/// under its number, if it was filed for this very archetype and the
/// archetype is alive.
pub open spec fn weak_value<T>(
    entries: Map<u32, (Lifetime, T)>,
    reg: RegistryState,
    id: WeakArchetypeId,
) -> Option<T> {
    if reg.is_alive(id.lifetime) && entries.contains_key(id.id) && entries[id.id].0
        == id.lifetime {
        Some(entries[id.id].1)
    } else {
        None
    }
}

/// `HashMap::retain` with the test whether an entry's lifetime is alive:
/// the entries that pass stay, the others are removed.
#[verifier::external_body]
fn retain_alive<T>(map: &mut HashMap<u32, (Lifetime, T)>, reg: &LifetimeRegistry)
    ensures
        final(map)@ == live_entries(old(map)@, reg@),
{
    map.retain(|_, entry| entry.0.is_alive(reg))
}

/// `HashMap::capacity`: how many entries the map can hold without
/// allocating again. The allocator decides it, so nothing is claimed.
#[verifier::external_body]
fn map_capacity<T>(map: &HashMap<u32, (Lifetime, T)>) -> usize {
    map.capacity()
}

/// The value of an entry, if the entry was filed for the lifetime `latest`.
fn filter_old_entries<T>(latest: Lifetime, entry: (Lifetime, T)) -> (value: Option<T>)
    ensures
        value == (if entry.0 == latest {
            Some(entry.1)
        } else {
            None
        }),
{
    if latest == entry.0 {
        Some(entry.1)
    } else {
        None
    }
}

/// A map from archetypes to values that forgets the value of an
/// archetype once the archetype is dead.
pub struct WeakArchetypeMap<T> {
    map: HashMap<u32, (Lifetime, T)>,
}

impl<T> WeakArchetypeMap<T> {
    /// What is filed, by archetype number: the lifetime of the archetype
    /// that it was filed for, and the value. Entries of dead archetypes
    /// may linger until they are collected.
    pub closed spec fn entries(&self) -> Map<u32, (Lifetime, T)> {
        self.map@
    }

    pub fn new() -> (map: Self)
        ensures
            map.entries() == Map::<u32, (Lifetime, T)>::empty(),
    {
        WeakArchetypeMap { map: HashMap::new() }
    }

    /// Files `value` for the archetype `id` and returns the value that
    /// was filed for it before. Nothing is filed for a dead archetype.
    /// Where the map is out of room, the entries of dead archetypes are
    /// collected first.
    pub fn insert(&mut self, reg: &LifetimeRegistry, id: WeakArchetypeId, value: T) -> (replaced:
        Option<T>)
        ensures
            replaced == weak_value(old(self).entries(), reg@, id),
            !reg@.is_alive(id.lifetime) ==> final(self).entries() == old(self).entries(),
            reg@.is_alive(id.lifetime) ==> final(self).entries() == old(self).entries().insert(
                id.id,
                (id.lifetime, value),
            ) || final(self).entries() == live_entries(old(self).entries(), reg@).insert(
                id.id,
                (id.lifetime, value),
            ),
    {
        if !id.lifetime.is_alive(reg) {
            return None;
        }
        if self.map.len() >= map_capacity(&self.map) {
            let old_len = self.map.len();
            self.gc(reg);
            if self.map.len() == old_len {
                self.map.reserve(1);
            }
        }
        match self.map.insert(id.id, (id.lifetime, value)) {
            Some(entry) => filter_old_entries(id.lifetime, entry),
            None => None,
        }
    }

    /// Files `value` for the archetype `id`, which is meant to have none
    /// yet; what was filed for it is replaced all the same, and returned.
    pub fn add(&mut self, reg: &LifetimeRegistry, id: WeakArchetypeId, value: T) -> (replaced:
        Option<T>)
        ensures
            replaced == weak_value(old(self).entries(), reg@, id),
            !reg@.is_alive(id.lifetime) ==> final(self).entries() == old(self).entries(),
            reg@.is_alive(id.lifetime) ==> final(self).entries() == old(self).entries().insert(
                id.id,
                (id.lifetime, value),
            ) || final(self).entries() == live_entries(old(self).entries(), reg@).insert(
                id.id,
                (id.lifetime, value),
            ),
    {
        self.insert(reg, id, value)
    }

    /// Takes out what is filed under the number of the archetype `id`, if
    /// the archetype is alive, and returns the value if it was filed for
    /// this very archetype.
    pub fn try_remove(&mut self, reg: &LifetimeRegistry, id: WeakArchetypeId) -> (removed: Option<
        T,
    >)
        ensures
            removed == weak_value(old(self).entries(), reg@, id),
            final(self).entries() == (if reg@.is_alive(id.lifetime) {
                old(self).entries().remove(id.id)
            } else {
                old(self).entries()
            }),
    {
        if !id.lifetime.is_alive(reg) {
            return None;
        }
        match self.map.remove(&id.id) {
            Some(entry) => filter_old_entries(id.lifetime, entry),
            None => None,
        }
    }

    pub fn get(&self, reg: &LifetimeRegistry, id: WeakArchetypeId) -> (value: Option<&T>)
        ensures
            value == match weak_value(self.entries(), reg@, id) {
                Some(v) => Some(&v),
                None => None,
            },
    {
        if !id.lifetime.is_alive(reg) {
            return None;
        }
        match self.map.get(&id.id) {
            Some(entry) => if entry.0 == id.lifetime {
                Some(&entry.1)
            } else {
                None
            },
            None => None,
        }
    }

    pub fn get_mut(&mut self, reg: &LifetimeRegistry, id: WeakArchetypeId) -> (value: Option<
        &mut T,
    >)
        ensures
            match value {
                Some(v) => {
                    &&& weak_value(old(self).entries(), reg@, id) == Some(*v)
                    &&& final(self).entries() == old(self).entries().insert(
                        id.id,
                        (id.lifetime, *final(v)),
                    )
                },
                None => {
                    &&& weak_value(old(self).entries(), reg@, id) is None
                    &&& final(self).entries() == old(self).entries()
                },
            },
    {
        if !id.lifetime.is_alive(reg) {
            return None;
        }
        match self.map.entry(id.id) {
            Entry::Occupied(entry) => {
                let found = entry.into_mut();
                if found.0 == id.lifetime {
                    Some(&mut found.1)
                } else {
                    None
                }
            },
            Entry::Vacant(_) => None,
        }
    }

    pub fn has(&self, reg: &LifetimeRegistry, id: WeakArchetypeId) -> (has: bool)
        ensures
            has == weak_value(self.entries(), reg@, id) is Some,
    {
        self.get(reg, id).is_some()
    }

    /// The number of entries, those of dead archetypes included.
    pub fn len(&self) -> (n: usize)
        ensures
            n == self.entries().len(),
    {
        self.map.len()
    }

    pub fn clear(&mut self)
        ensures
            final(self).entries() == Map::<u32, (Lifetime, T)>::empty(),
    {
        self.map.clear();
    }

    /// Collects the entries of dead archetypes.
    pub fn gc(&mut self, reg: &LifetimeRegistry)
        ensures
            final(self).entries() == live_entries(old(self).entries(), reg@),
    {
        retain_alive(&mut self.map, reg);
    }
}

/// Collecting the entries of dead archetypes changes the value of no archetype.
pub proof fn law_gc_keeps_values<T>(
    entries: Map<u32, (Lifetime, T)>,
    reg: RegistryState,
    id: WeakArchetypeId,
)
    ensures
        weak_value(live_entries(entries, reg), reg, id) == weak_value(entries, reg, id),
{
}

/// Whether `listed` are the entries of live archetypes, each once.
pub open spec fn lists_live_entries<T>(
    entries: Map<u32, (Lifetime, T)>,
    reg: RegistryState,
    listed: Seq<(WeakArchetypeId, T)>,
) -> bool {
    &&& forall|i: int|
        0 <= i < listed.len() ==> {
            let id = (#[trigger] listed[i]).0;
            &&& reg.is_alive(id.lifetime)
            &&& entries.contains_key(id.id)
            &&& entries[id.id] == (id.lifetime, listed[i].1)
        }
    &&& forall|i: int, j: int|
        0 <= i < j < listed.len() ==> (#[trigger] listed[i]).0.id != (#[trigger] listed[j]).0.id
    &&& forall|id: u32|
        #![trigger entries.contains_key(id)]
        entries.contains_key(id) && reg.is_alive(entries[id].0) ==> exists|i: int|
            0 <= i < listed.len() && (#[trigger] listed[i]).0.id == id
}

impl<T> WeakArchetypeMap<T> {
    /// The entries of live archetypes, each once, in no particular order.
    pub fn iter(&self, reg: &LifetimeRegistry) -> (listed: Vec<(WeakArchetypeId, &T)>)
        ensures
            lists_live_entries(
                self.entries(),
                reg@,
                Seq::new(listed@.len(), |i: int| (listed@[i].0, *listed@[i].1)),
            ),
    {
        let mut listed: Vec<(WeakArchetypeId, &T)> = Vec::new();
        let ghost all = spec_hash_map_iter(&self.map).remaining();
        for entry in it: self.map.iter()
            invariant
                it.seq() == all,
                all == spec_hash_map_iter(&self.map).remaining(),
                all.no_duplicates(),
                listed@.len() <= it.index(),
                forall|i: int|
                    0 <= i < listed@.len() ==> {
                        let id = (#[trigger] listed@[i]).0;
                        &&& reg@.is_alive(id.lifetime)
                        &&& self.entries().contains_key(id.id)
                        &&& self.entries()[id.id] == (id.lifetime, *listed@[i].1)
                        &&& exists|k: int| 0 <= k < it.index() && *(#[trigger] all[k]).0 == id.id
                    },
                forall|i: int, j: int|
                    0 <= i < j < listed@.len() ==> (#[trigger] listed@[i]).0.id != (
                    #[trigger] listed@[j]).0.id,
                forall|k: int|
                    0 <= k < it.index() && reg@.is_alive((*(#[trigger] all[k]).1).0) ==> exists|
                        i: int,
                    |
                        0 <= i < listed@.len() && (#[trigger] listed@[i]).0.id == *all[k].0,
        {
            let ghost at = it.index();
            let ghost before = listed@;
            assert(*entry.0 == *all[at].0 && *entry.1 == *all[at].1);
            assert(self.entries().contains_key(*all[at].0) && self.entries()[*all[at].0]
                == *all[at].1);
            let (number, filed) = entry;
            if filed.0.is_alive(reg) {
                let id = WeakArchetypeId { lifetime: filed.0, id: *number };
                listed.push((id, &filed.1));
                proof {
                    assert forall|i: int, j: int| 0 <= i < j < listed@.len() implies (
                    #[trigger] listed@[i]).0.id != (#[trigger] listed@[j]).0.id by {
                        if j == listed@.len() - 1 {
                            assert(listed@[i] == before[i]);
                            let k = choose|k: int|
                                0 <= k < at && *(#[trigger] all[k]).0 == before[i].0.id;
                            if before[i].0.id == *number {
                                assert(self.entries()[*all[k].0] == *all[k].1);
                                assert(all[k] == all[at]);
                            }
                        } else {
                            assert(listed@[i] == before[i] && listed@[j] == before[j]);
                        }
                    }
                    assert forall|i: int| 0 <= i < listed@.len() implies {
                        let id = (#[trigger] listed@[i]).0;
                        &&& reg@.is_alive(id.lifetime)
                        &&& self.entries().contains_key(id.id)
                        &&& self.entries()[id.id] == (id.lifetime, *listed@[i].1)
                        &&& exists|k: int| 0 <= k < at + 1 && *(#[trigger] all[k]).0 == id.id
                    } by {
                        if i < before.len() {
                            assert(listed@[i] == before[i]);
                            let k = choose|k: int|
                                0 <= k < at && *(#[trigger] all[k]).0 == before[i].0.id;
                            assert(*all[k].0 == listed@[i].0.id);
                        } else {
                            assert(*all[at].0 == listed@[i].0.id);
                        }
                    }
                    assert forall|k: int|
                        0 <= k < at + 1 && reg@.is_alive((*(#[trigger] all[k]).1).0) implies exists|
                        i: int,
                    |
                        0 <= i < listed@.len() && (#[trigger] listed@[i]).0.id == *all[k].0 by {
                        if k < at {
                            let i = choose|i: int|
                                0 <= i < before.len() && (#[trigger] before[i]).0.id == *all[k].0;
                            assert(listed@[i] == before[i]);
                        } else {
                            assert(listed@[listed@.len() - 1].0.id == *all[k].0);
                        }
                    }
                }
            }
        }
        proof {
            let shown = Seq::new(listed@.len(), |i: int| (listed@[i].0, *listed@[i].1));
            assert forall|id: u32|
                #![trigger self.entries().contains_key(id)]
                self.entries().contains_key(id) && reg@.is_alive(
                    self.entries()[id].0,
                ) implies exists|i: int|
                0 <= i < shown.len() && (#[trigger] shown[i]).0.id == id by {
                let pair = (&id, &self.entries()[id]);
                assert(all.contains(pair));
                let k = choose|k: int| 0 <= k < all.len() && all[k] == pair;
                let i = choose|i: int|
                    0 <= i < listed@.len() && (#[trigger] listed@[i]).0.id == *all[k].0;
                assert(shown[i].0.id == id);
            }
            assert forall|i: int, j: int| 0 <= i < j < shown.len() implies (#[trigger] shown[i]).0.id
                != (#[trigger] shown[j]).0.id by {
                assert(listed@[i].0.id != listed@[j].0.id);
            }
            assert forall|i: int| 0 <= i < shown.len() implies {
                let id = (#[trigger] shown[i]).0;
                &&& reg@.is_alive(id.lifetime)
                &&& self.entries().contains_key(id.id)
                &&& self.entries()[id.id] == (id.lifetime, shown[i].1)
            } by {
                assert(listed@[i].0 == shown[i].0);
            }
        }
        listed
    }
}


/// The archetypes of `keys`, each with the value at its place in `values`.
pub open spec fn paired<T>(keys: Seq<WeakArchetypeId>, values: Seq<T>) -> Seq<
    (WeakArchetypeId, T),
> {
    Seq::new(keys.len(), |i: int| (keys[i], values[i]))
}

impl<T> WeakArchetypeMap<T> {
    /// The live archetypes that have a value, each once, in no particular order.
    pub fn keys(&self, reg: &LifetimeRegistry) -> (keys: Vec<WeakArchetypeId>)
        ensures
            exists|values: Seq<T>|
                values.len() == keys@.len() && lists_live_entries(
                    self.entries(),
                    reg@,
                    #[trigger] paired(keys@, values),
                ),
    {
        let listed = self.iter(reg);
        let ghost shown = Seq::new(listed@.len(), |i: int| (listed@[i].0, *listed@[i].1));
        let mut keys: Vec<WeakArchetypeId> = Vec::new();
        let mut at: usize = 0;
        while at < listed.len()
            invariant
                at <= listed@.len(),
                keys@.len() == at,
                forall|i: int| 0 <= i < at ==> keys@[i] == (#[trigger] listed@[i]).0,
            decreases listed@.len() - at,
        {
            keys.push(listed[at].0);
            at = at + 1;
        }
        proof {
            let values = Seq::new(listed@.len(), |i: int| *listed@[i].1);
            assert(paired(keys@, values) =~= shown);
        }
        keys
    }

    /// The values of the live archetypes, one for each, in no particular order.
    pub fn values(&self, reg: &LifetimeRegistry) -> (values: Vec<&T>)
        ensures
            exists|keys: Seq<WeakArchetypeId>|
                keys.len() == values@.len() && lists_live_entries(
                    self.entries(),
                    reg@,
                    #[trigger] paired(keys, values@.unref()),
                ),
    {
        let listed = self.iter(reg);
        let ghost shown = Seq::new(listed@.len(), |i: int| (listed@[i].0, *listed@[i].1));
        let mut values: Vec<&T> = Vec::new();
        let mut at: usize = 0;
        while at < listed.len()
            invariant
                at <= listed@.len(),
                values@.len() == at,
                forall|i: int| 0 <= i < at ==> *values@[i] == *(#[trigger] listed@[i]).1,
            decreases listed@.len() - at,
        {
            values.push(listed[at].1);
            at = at + 1;
        }
        proof {
            let keys = Seq::new(listed@.len(), |i: int| listed@[i].0);
            assert(paired(keys, values@.unref()) =~= shown);
        }
        values
    }
}


impl<T> Default for WeakArchetypeMap<T> {
    fn default() -> (map: Self)
        ensures
            map.entries() == Map::<u32, (Lifetime, T)>::empty(),
    {
        WeakArchetypeMap::new()
    }
}

} // verus!
