use crate::entity::ArchetypeId;
use crate::entity::Bundle;
use crate::entity::Entity;
use crate::entity::SingleEntity;
use crate::lifetime::DebugLifetime;
use crate::lifetime::Dependent;
use crate::lifetime::Lifetime;
use crate::lifetime::LifetimeRegistry;
use crate::lifetime::RegistryState;
use crate::polyfill::VecExt;
use std::collections::hash_map::Entry;
use std::collections::HashMap;
use vstd::prelude::*;
use vstd::std_specs::hash::spec_keys_iter;
use vstd::std_specs::iter::IteratorSpec;

verus! {

broadcast use vstd::std_specs::hash::group_hash_axioms;

/// One position of a run: empty, or full with a component value and a
/// dependent on the lifetime of the entity that the value belongs to.
#[derive(Debug)]
pub enum StorageSlot<T> {
    Full { lifetime: Dependent<DebugLifetime>, value: T },
    Empty,
}

impl<T> View for StorageSlot<T> {
    type V = Option<(DebugLifetime, T)>;

    /// The entity's lifetime and the value, if the slot is full.
    open spec fn view(&self) -> Option<(DebugLifetime, T)> {
        match *self {
            StorageSlot::Full { lifetime, value } => Some((lifetime.inner(), value)),
            StorageSlot::Empty => None,
        }
    }
}

/// The value of a slot, if the slot is full.
pub open spec fn slot_value<T>(slot: Option<(DebugLifetime, T)>) -> Option<T> {
    match slot {
        Some((_, value)) => Some(value),
        None => None,
    }
}

/// The registry state after the dependent of `slot`, if it has one, was released.
pub open spec fn released<T>(reg: RegistryState, slot: Option<(DebugLifetime, T)>) -> RegistryState {
    match slot {
        Some((lifetime, _)) => reg.dec_dep(lifetime.lifetime()),
        None => reg,
    }
}

/// Whether the dependent of `slot`, if it has one, can be released without underflow.
pub open spec fn can_release<T>(reg: RegistryState, slot: Option<(DebugLifetime, T)>) -> bool {
    match slot {
        Some((lifetime, _)) => reg.can_dec_dep(lifetime.lifetime()),
        None => true,
    }
}

impl<T> StorageSlot<T> {
    pub fn is_full(&self) -> (full: bool)
        ensures
            full == self@ is Some,
    {
        self.value().is_some()
    }

    /// Takes the slot apart and releases its dependent.
    pub fn into_pair(self, reg: &mut LifetimeRegistry) -> (pair: Option<(DebugLifetime, T)>)
        requires
            old(reg).wf(),
            can_release(old(reg)@, self@),
        ensures
            final(reg).wf(),
            final(reg).block_size_spec() == old(reg).block_size_spec(),
            final(reg)@ == released(old(reg)@, self@),
            pair == self@,
    {
        match self {
            StorageSlot::Full { value, lifetime } => Some((lifetime.into_inner(reg), value)),
            StorageSlot::Empty => None,
        }
    }

    pub fn pair(&self) -> (pair: Option<(DebugLifetime, &T)>)
        ensures
            pair == match self@ {
                Some((lifetime, value)) => Some((lifetime, &value)),
                None => None,
            },
    {
        match self {
            StorageSlot::Full { value, lifetime } => Some((lifetime.get(), value)),
            StorageSlot::Empty => None,
        }
    }

    pub fn pair_mut(&mut self) -> (pair: Option<(DebugLifetime, &mut T)>)
        ensures
            match pair {
                Some((lifetime, value)) => old(self)@ == Some((lifetime, *value)) && final(self)@
                    == Some((lifetime, *final(value))),
                None => old(self)@ is None && final(self)@ is None,
            },
    {
        match self {
            StorageSlot::Full { value, lifetime } => Some((lifetime.get(), value)),
            StorageSlot::Empty => None,
        }
    }

    /// Takes the value out and releases the slot's dependent.
    pub fn into_value(self, reg: &mut LifetimeRegistry) -> (value: Option<T>)
        requires
            old(reg).wf(),
            can_release(old(reg)@, self@),
        ensures
            final(reg).wf(),
            final(reg).block_size_spec() == old(reg).block_size_spec(),
            final(reg)@ == released(old(reg)@, self@),
            value == slot_value(self@),
    {
        match self {
            StorageSlot::Full { value, lifetime } => {
                let _ = lifetime.into_inner(reg);
                Some(value)
            },
            StorageSlot::Empty => None,
        }
    }

    pub fn value(&self) -> (value: Option<&T>)
        ensures
            value == match slot_value(self@) {
                Some(v) => Some(&v),
                None => None,
            },
    {
        match self {
            StorageSlot::Full { value, .. } => Some(value),
            StorageSlot::Empty => None,
        }
    }

    pub fn value_mut(&mut self) -> (value: Option<&mut T>)
        ensures
            match value {
                Some(v) => {
                    &&& old(self)@ matches Some((lifetime, before))
                    &&& before == *v
                    &&& final(self)@ == Some((lifetime, *final(v)))
                },
                None => old(self)@ is None && final(self)@ is None,
            },
    {
        match self {
            StorageSlot::Full { value, .. } => Some(value),
            StorageSlot::Empty => None,
        }
    }
}

/// The slot at position `idx` of a run; empty where the run does not reach.
pub open spec fn slot_at<T>(slots: Seq<Option<(DebugLifetime, T)>>, idx: int) -> Option<
    (DebugLifetime, T),
> {
    if 0 <= idx < slots.len() {
        slots[idx]
    } else {
        None
    }
}

/// The run with `slot` at position `idx`: where the run did not reach
/// that far it is extended, with empty slots in between.
pub open spec fn slots_with<T>(
    slots: Seq<Option<(DebugLifetime, T)>>,
    idx: int,
    slot: Option<(DebugLifetime, T)>,
) -> Seq<Option<(DebugLifetime, T)>> {
    Seq::new(
        if idx < slots.len() {
            slots.len()
        } else {
            (idx + 1) as nat
        },
        |i: int|
            if i == idx {
                slot
            } else if i < slots.len() {
                slots[i]
            } else {
                None
            },
    )
}

/// The run without the empty slots at its end.
pub open spec fn trimmed<T>(slots: Seq<Option<(DebugLifetime, T)>>) -> Seq<
    Option<(DebugLifetime, T)>,
>
    decreases slots.len(),
{
    if slots.len() > 0 && slots.last() is None {
        trimmed(slots.drop_last())
    } else {
        slots
    }
}

/// The run after position `idx` was emptied and the empty slots at the
/// end were trimmed; a position that the run does not reach leaves it as it is.
pub open spec fn slots_without<T>(slots: Seq<Option<(DebugLifetime, T)>>, idx: int) -> Seq<
    Option<(DebugLifetime, T)>,
> {
    if 0 <= idx < slots.len() {
        trimmed(slots.update(idx, None))
    } else {
        slots
    }
}

/// A trimmed run is no longer than the run, agrees with it as far as it
/// goes, is empty or ends in a full slot, and keeps every full slot.
pub proof fn lemma_trimmed<T>(slots: Seq<Option<(DebugLifetime, T)>>)
    ensures
        trimmed(slots).len() <= slots.len(),
        trimmed(slots) == slots.subrange(0, trimmed(slots).len() as int),
        trimmed(slots).len() > 0 ==> trimmed(slots).last() is Some,
        forall|i: int| trimmed(slots).len() <= i < slots.len() ==> (#[trigger] slots[i]) is None,
    decreases slots.len(),
{
    if slots.len() > 0 && slots.last() is None {
        lemma_trimmed(slots.drop_last());
        let shorter = trimmed(slots.drop_last());
        assert(shorter =~= slots.subrange(0, shorter.len() as int));
        assert forall|i: int| trimmed(slots).len() <= i < slots.len() implies (
        #[trigger] slots[i]) is None by {
            if i < slots.len() - 1 {
                assert(slots.drop_last()[i] is None);
            }
        }
    } else {
        assert(slots =~= slots.subrange(0, slots.len() as int));
    }
}

/// The components of the entities of one archetype, by slot.
#[derive(Debug)]
pub struct StorageRun<T> {
    archetype: ArchetypeId,
    comps: Vec<StorageSlot<T>>,
}

impl<T> View for StorageRun<T> {
    type V = Seq<Option<(DebugLifetime, T)>>;

    closed spec fn view(&self) -> Seq<Option<(DebugLifetime, T)>> {
        Seq::new(self.comps@.len(), |i: int| self.comps@[i]@)
    }
}

impl<T> StorageRun<T> {
    /// The archetype that the run was made for.
    pub closed spec fn spec_archetype(&self) -> ArchetypeId {
        self.archetype
    }

    /// A run is empty or ends in a full slot, and its slots can be
    /// numbered by `u32`.
    pub open spec fn wf(&self) -> bool {
        &&& self@.len() <= u32::MAX
        &&& self@.len() > 0 ==> self@.last() is Some
    }

    pub fn new(archetype: ArchetypeId) -> (run: Self)
        ensures
            run.wf(),
            run@ == Seq::<Option<(DebugLifetime, T)>>::empty(),
            run.spec_archetype() == archetype,
    {
        let run = StorageRun { archetype, comps: Vec::new() };
        assert(run@ =~= Seq::<Option<(DebugLifetime, T)>>::empty());
        run
    }

    pub fn archetype(&self) -> (archetype: ArchetypeId)
        ensures
            archetype == self.spec_archetype(),
    {
        self.archetype
    }

    pub fn as_slice(&self) -> (slots: &[StorageSlot<T>])
        ensures
            slots@.len() == self@.len(),
            forall|i: int| 0 <= i < slots@.len() ==> (#[trigger] slots@[i])@ == self@[i],
    {
        self.comps.as_slice()
    }

    /// Whether the run has no slots.
    pub fn is_empty(&self) -> (empty: bool)
        ensures
            empty == (self@.len() == 0),
    {
        self.comps.len() == 0
    }

    /// Puts `value` in the slot of `entity`, with a new dependent on the
    /// entity's lifetime; the run grows as far as the slot, by empty
    /// slots. Returns the value that was there, whose dependent is
    /// released, and the new value in its place.
    fn insert(&mut self, reg: &mut LifetimeRegistry, entity: Entity, value: T) -> (res: (
        Option<T>,
        &mut T,
    ))
        requires
            old(self).wf(),
            entity.slot < u32::MAX,
            old(reg).wf(),
            old(reg)@.can_inc_dep(entity.lifetime.lifetime()),
            can_release(
                old(reg)@.inc_dep(entity.lifetime.lifetime()),
                slot_at(old(self)@, entity.slot as int),
            ),
        ensures
            final(self).wf(),
            final(self).spec_archetype() == old(self).spec_archetype(),
            res.0 == slot_value(slot_at(old(self)@, entity.slot as int)),
            *res.1 == value,
            final(self)@ == slots_with(
                old(self)@,
                entity.slot as int,
                Some((entity.lifetime, *final(res.1))),
            ),
            final(reg).wf(),
            final(reg).block_size_spec() == old(reg).block_size_spec(),
            final(reg)@ == released(
                old(reg)@.inc_dep(entity.lifetime.lifetime()),
                slot_at(old(self)@, entity.slot as int),
            ),
    {
        let slot_idx = entity.slot_usize();
        let ghost before = self.comps@;
        let empty = || -> (slot: StorageSlot<T>)
            ensures
                slot@ is None,
            {
                StorageSlot::Empty
            };
        self.comps.ensure_length_with(slot_idx + 1, empty);
        assert forall|i: int| 0 <= i < self@.len() implies #[trigger] self@[i] == slot_at(
            old(self)@,
            i,
        ) by {
            if i < before.len() {
                assert(self.comps@[i] == before[i]);
            }
        }
        let ghost grown = self@;
        assert(self.comps@[slot_idx as int]@ == grown[slot_idx as int]);
        let mut slot = StorageSlot::Full { lifetime: Dependent::new(reg, entity.lifetime), value };
        std::mem::swap(&mut self.comps[slot_idx], &mut slot);
        assert(slot@ == slot_at(old(self)@, entity.slot as int));
        assert(self@ =~= grown.update(slot_idx as int, Some((entity.lifetime, value))));
        assert(forall|i: int|
            0 <= i < self.comps@.len() ==> (#[trigger] self.comps@[i])@ == self@[i]);
        let replaced = slot.into_value(reg);
        let placed = self.comps[slot_idx].value_mut().unwrap();
        (replaced, placed)
    }

    /// Whether the run ends in an empty slot.
    fn ends_empty(&self) -> (ends_empty: bool)
        ensures
            ends_empty == (self@.len() > 0 && self@.last() is None),
    {
        let len = self.comps.len();
        len > 0 && !self.comps[len - 1].is_full()
    }

    /// Empties `slot` and trims the empty slots at the end of the run.
    /// Returns the value that was there, whose dependent is released.
    fn remove(&mut self, reg: &mut LifetimeRegistry, slot: u32) -> (value: Option<T>)
        requires
            old(self).wf(),
            old(reg).wf(),
            can_release(old(reg)@, slot_at(old(self)@, slot as int)),
        ensures
            final(self).wf(),
            final(self).spec_archetype() == old(self).spec_archetype(),
            value == slot_value(slot_at(old(self)@, slot as int)),
            final(self)@ == slots_without(old(self)@, slot as int),
            final(reg).wf(),
            final(reg).block_size_spec() == old(reg).block_size_spec(),
            final(reg)@ == released(old(reg)@, slot_at(old(self)@, slot as int)),
    {
        if slot as usize >= self.comps.len() {
            return None;
        }
        assert(self.comps@[slot as int]@ == self@[slot as int]);
        let mut removed = StorageSlot::Empty;
        std::mem::swap(&mut self.comps[slot as usize], &mut removed);
        let ghost emptied = self@;
        assert(emptied =~= old(self)@.update(slot as int, None));
        while self.ends_empty()
            invariant
                self.archetype == old(self).archetype,
                self@.len() <= emptied.len(),
                trimmed(self@) == trimmed(emptied),
            decreases self@.len(),
        {
            let ghost before = self@;
            let _ = self.comps.pop();
            assert(self@ =~= before.drop_last());
        }
        removed.into_value(reg)
    }
}


/// A borrowed look at the slots of a run.
#[derive(Debug)]
pub struct StorageRunView<'a, T> {
    archetype: ArchetypeId,
    comps: &'a [StorageSlot<T>],
}

impl<'a, T> Clone for StorageRunView<'a, T> {
    fn clone(&self) -> (view: Self)
        ensures
            view == *self,
    {
        StorageRunView { archetype: self.archetype, comps: self.comps }
    }
}

impl<'a, T> Copy for StorageRunView<'a, T> {

}

impl<'a, T> View for StorageRunView<'a, T> {
    type V = Seq<Option<(DebugLifetime, T)>>;

    closed spec fn view(&self) -> Seq<Option<(DebugLifetime, T)>> {
        Seq::new(self.comps@.len(), |i: int| self.comps@[i]@)
    }
}

impl<'a, T> StorageRunView<'a, T> {
    /// The archetype that the view was made for.
    pub closed spec fn spec_archetype(&self) -> ArchetypeId {
        self.archetype
    }

    pub fn new(archetype: ArchetypeId, slots: &'a [StorageSlot<T>]) -> (view: Self)
        ensures
            view.spec_archetype() == archetype,
            view@.len() == slots@.len(),
            forall|i: int| 0 <= i < slots@.len() ==> view@[i] == (#[trigger] slots@[i])@,
    {
        StorageRunView { archetype, comps: slots }
    }

    pub fn archetype(self) -> (archetype: ArchetypeId)
        ensures
            archetype == self.spec_archetype(),
    {
        self.archetype
    }

    pub fn as_slice(self) -> (slots: &'a [StorageSlot<T>])
        ensures
            slots@.len() == self@.len(),
            forall|i: int| 0 <= i < slots@.len() ==> (#[trigger] slots@[i])@ == self@[i],
    {
        self.comps
    }

    /// The entity lifetime and the value in slot `slot_idx`, if the view
    /// reaches that far and the slot is full.
    pub fn get_slot_by_idx(self, slot_idx: u32) -> (slot: Option<(DebugLifetime, &'a T)>)
        ensures
            slot == match slot_at(self@, slot_idx as int) {
                Some((lifetime, value)) => Some((lifetime, &value)),
                None => None,
            },
    {
        if (slot_idx as usize) < self.comps.len() {
            self.comps[slot_idx as usize].pair()
        } else {
            None
        }
    }

    /// The entity lifetime and the value in the slot of `entity`, whether
    /// or not the entity is the one that the value was stored for.
    pub fn get_slot(self, entity: Entity) -> (slot: Option<(DebugLifetime, &'a T)>)
        ensures
            slot == match slot_at(self@, entity.slot as int) {
                Some((lifetime, value)) => Some((lifetime, &value)),
                None => None,
            },
    {
        self.get_slot_by_idx(entity.slot)
    }

    pub fn try_get(self, entity: Entity) -> (value: Option<&'a T>)
        ensures
            value == match slot_value(slot_at(self@, entity.slot as int)) {
                Some(v) => Some(&v),
                None => None,
            },
    {
        match self.get_slot(entity) {
            Some((_, value)) => Some(value),
            None => None,
        }
    }

    /// The value in the slot of `entity`, which must be there.
    pub fn get(self, entity: Entity) -> (value: &'a T)
        requires
            slot_at(self@, entity.slot as int) is Some,
        ensures
            Some(*value) == slot_value(slot_at(self@, entity.slot as int)),
    {
        self.try_get(entity).unwrap()
    }

    pub fn has_by_idx(self, slot_idx: u32) -> (has: bool)
        ensures
            has == slot_at(self@, slot_idx as int) is Some,
    {
        self.get_slot_by_idx(slot_idx).is_some()
    }

    pub fn has(self, entity: Entity) -> (has: bool)
        ensures
            has == slot_at(self@, entity.slot as int) is Some,
    {
        self.try_get(entity).is_some()
    }

    /// The number of slots, cut down to what `u32` holds.
    pub fn max_slot(self) -> (n: u32)
        ensures
            n == self@.len() as u32,
            self@.len() <= u32::MAX ==> n == self@.len(),
    {
        #[verifier::truncate]
        (self.comps.len() as u32)
    }
}

impl<T> StorageRun<T> {
    pub fn as_ref_view(&self) -> (view: StorageRunView<'_, T>)
        ensures
            view@ == self@,
            view.spec_archetype() == self.spec_archetype(),
    {
        let slots = self.as_slice();
        let view = StorageRunView::new(self.archetype, slots);
        assert forall|i: int| 0 <= i < view@.len() implies view@[i] == self@[i] by {
            assert(slots@[i]@ == self@[i]);
        }
        assert(view@ =~= self@);
        view
    }

    pub fn get_slot_by_idx(&self, slot_idx: u32) -> (slot: Option<(DebugLifetime, &T)>)
        ensures
            slot == match slot_at(self@, slot_idx as int) {
                Some((lifetime, value)) => Some((lifetime, &value)),
                None => None,
            },
    {
        self.as_ref_view().get_slot_by_idx(slot_idx)
    }

    pub fn get_slot(&self, entity: Entity) -> (slot: Option<(DebugLifetime, &T)>)
        ensures
            slot == match slot_at(self@, entity.slot as int) {
                Some((lifetime, value)) => Some((lifetime, &value)),
                None => None,
            },
    {
        self.as_ref_view().get_slot(entity)
    }

    pub fn get(&self, entity: Entity) -> (value: Option<&T>)
        ensures
            value == match slot_value(slot_at(self@, entity.slot as int)) {
                Some(v) => Some(&v),
                None => None,
            },
    {
        self.as_ref_view().try_get(entity)
    }

    pub fn has_by_idx(&self, slot_idx: u32) -> (has: bool)
        ensures
            has == slot_at(self@, slot_idx as int) is Some,
    {
        self.as_ref_view().has_by_idx(slot_idx)
    }

    pub fn has(&self, entity: Entity) -> (has: bool)
        ensures
            has == slot_at(self@, entity.slot as int) is Some,
    {
        self.as_ref_view().has(entity)
    }

    /// The number of slots.
    pub fn max_slot(&self) -> (n: u32)
        requires
            self.wf(),
        ensures
            n == self@.len(),
    {
        self.as_ref_view().max_slot()
    }

    /// The entity lifetime and the value in slot `slot_idx`, the value to
    /// be changed in place.
    pub fn get_slot_by_idx_mut(&mut self, slot_idx: u32) -> (slot: Option<
        (DebugLifetime, &mut T),
    >)
        ensures
            final(self).spec_archetype() == old(self).spec_archetype(),
            match slot {
                Some((lifetime, value)) => slot_at(old(self)@, slot_idx as int) == Some(
                    (lifetime, *value),
                ) && final(self)@ == old(self)@.update(
                    slot_idx as int,
                    Some((lifetime, *final(value))),
                ),
                None => slot_at(old(self)@, slot_idx as int) is None && final(self)@ == old(self)@,
            },
    {
        assert(forall|i: int|
            0 <= i < self.comps@.len() ==> (#[trigger] self.comps@[i])@ == self@[i]);
        if (slot_idx as usize) < self.comps.len() {
            self.comps[slot_idx as usize].pair_mut()
        } else {
            None
        }
    }

    pub fn get_slot_mut(&mut self, entity: Entity) -> (slot: Option<(DebugLifetime, &mut T)>)
        ensures
            final(self).spec_archetype() == old(self).spec_archetype(),
            match slot {
                Some((lifetime, value)) => slot_at(old(self)@, entity.slot as int) == Some(
                    (lifetime, *value),
                ) && final(self)@ == old(self)@.update(
                    entity.slot as int,
                    Some((lifetime, *final(value))),
                ),
                None => slot_at(old(self)@, entity.slot as int) is None && final(self)@ == old(self)@,
            },
    {
        self.get_slot_by_idx_mut(entity.slot)
    }

    pub fn get_mut(&mut self, entity: Entity) -> (value: Option<&mut T>)
        ensures
            final(self).spec_archetype() == old(self).spec_archetype(),
            match value {
                Some(v) => slot_at(old(self)@, entity.slot as int) matches Some(
                    (lifetime, before),
                ) && before == *v && final(self)@ == old(self)@.update(
                    entity.slot as int,
                    Some((lifetime, *final(v))),
                ),
                None => slot_at(old(self)@, entity.slot as int) is None && final(self)@ == old(self)@,
            },
    {
        match self.get_slot_mut(entity) {
            Some((_, value)) => Some(value),
            None => None,
        }
    }
}


/// The slots of the run of archetype number `id`; no slots where there is no run.
pub open spec fn run_slots<T>(runs: Map<u32, Seq<Option<(DebugLifetime, T)>>>, id: u32) -> Seq<
    Option<(DebugLifetime, T)>,
> {
    if runs.contains_key(id) {
        runs[id]
    } else {
        Seq::empty()
    }
}

/// The slot in which the component of `entity` is kept.
pub open spec fn entity_slot<T>(
    runs: Map<u32, Seq<Option<(DebugLifetime, T)>>>,
    entity: Entity,
) -> Option<(DebugLifetime, T)> {
    slot_at(run_slots(runs, entity.archetype.id), entity.slot as int)
}

/// The component of `entity`, if it has one.
pub open spec fn component<T>(
    runs: Map<u32, Seq<Option<(DebugLifetime, T)>>>,
    entity: Entity,
) -> Option<T> {
    slot_value(entity_slot(runs, entity))
}

/// The runs after `value` was stored for `entity`: the run of the
/// entity's archetype, made if need be, has the value in the entity's slot.
pub open spec fn runs_with<T>(
    runs: Map<u32, Seq<Option<(DebugLifetime, T)>>>,
    entity: Entity,
    value: T,
) -> Map<u32, Seq<Option<(DebugLifetime, T)>>> {
    runs.insert(
        entity.archetype.id,
        slots_with(
            run_slots(runs, entity.archetype.id),
            entity.slot as int,
            Some((entity.lifetime, value)),
        ),
    )
}

/// The runs after the component of `entity` was removed: its slot is
/// emptied and its run trimmed, and a run that lost a component and has
/// no slots left is dropped.
pub open spec fn runs_without<T>(
    runs: Map<u32, Seq<Option<(DebugLifetime, T)>>>,
    entity: Entity,
) -> Map<u32, Seq<Option<(DebugLifetime, T)>>> {
    if !runs.contains_key(entity.archetype.id) {
        runs
    } else {
        let slots = slots_without(runs[entity.archetype.id], entity.slot as int);
        if component(runs, entity) is Some && slots.len() == 0 {
            runs.remove(entity.archetype.id)
        } else {
            runs.insert(entity.archetype.id, slots)
        }
    }
}

/// The components of one type, for the entities of every archetype: one
/// run for each archetype that has any.
pub struct Storage<T> {
    archetypes: HashMap<u32, StorageRun<T>>,
}

impl<T> View for Storage<T> {
    type V = Map<u32, Seq<Option<(DebugLifetime, T)>>>;

    /// The slots of each run, by archetype number.
    open spec fn view(&self) -> Map<u32, Seq<Option<(DebugLifetime, T)>>> {
        Map::new(|id: u32| self.runs().contains_key(id), |id: u32| self.runs()[id]@)
    }
}

impl<T> Storage<T> {
    /// The runs, by archetype number.
    pub closed spec fn runs(&self) -> Map<u32, StorageRun<T>> {
        self.archetypes@
    }

    /// Every run is well-formed and is filed under the number of the
    /// archetype that it was made for.
    pub open spec fn wf(&self) -> bool {
        forall|id: u32| #[trigger]
            self.runs().contains_key(id) ==> self.runs()[id].wf()
                && self.runs()[id].spec_archetype().id == id
    }

    pub fn new() -> (storage: Self)
        ensures
            storage.wf(),
            storage.runs() == Map::<u32, StorageRun<T>>::empty(),
            storage@ == Map::<u32, Seq<Option<(DebugLifetime, T)>>>::empty(),
    {
        let storage = Storage { archetypes: HashMap::new() };
        assert(storage@ =~= Map::<u32, Seq<Option<(DebugLifetime, T)>>>::empty());
        storage
    }

    /// The run of `archetype`, if there is one.
    pub fn get_run(&self, archetype: ArchetypeId) -> (run: Option<&StorageRun<T>>)
        ensures
            run == (if self.runs().contains_key(archetype.id) {
                Some(&self.runs()[archetype.id])
            } else {
                None
            }),
    {
        self.archetypes.get(&archetype.id)
    }

    /// The slots of the run of `archetype`; no slots where there is no run.
    pub fn get_run_slice(&self, archetype: ArchetypeId) -> (slots: &[StorageSlot<T>])
        ensures
            slots@.len() == run_slots(self@, archetype.id).len(),
            forall|i: int|
                0 <= i < slots@.len() ==> (#[trigger] slots@[i])@ == run_slots(
                    self@,
                    archetype.id,
                )[i],
    {
        match self.get_run(archetype) {
            Some(run) => run.as_slice(),
            None => &[],
        }
    }

    /// A look at the run of `archetype`; at no slots where there is no run.
    pub fn get_run_view(&self, archetype: ArchetypeId) -> (view: StorageRunView<'_, T>)
        ensures
            view@ == run_slots(self@, archetype.id),
            view.spec_archetype() == (if self.runs().contains_key(archetype.id) {
                self.runs()[archetype.id].spec_archetype()
            } else {
                archetype
            }),
    {
        match self.get_run(archetype) {
            Some(run) => run.as_ref_view(),
            None => StorageRunView::new_empty(archetype),
        }
    }

    pub fn get(&self, entity: Entity) -> (value: Option<&T>)
        ensures
            value == match component(self@, entity) {
                Some(v) => Some(&v),
                None => None,
            },
    {
        match self.archetypes.get(&entity.archetype.id) {
            Some(run) => match run.get_slot_by_idx(entity.slot) {
                Some((_, value)) => Some(value),
                None => None,
            },
            None => None,
        }
    }

    pub fn has(&self, entity: Entity) -> (has: bool)
        ensures
            has == component(self@, entity) is Some,
    {
        self.get(entity).is_some()
    }
}

impl<'a, T> StorageRunView<'a, T> {
    pub fn new_empty(archetype: ArchetypeId) -> (view: Self)
        ensures
            view.spec_archetype() == archetype,
            view@ == Seq::<Option<(DebugLifetime, T)>>::empty(),
    {
        let view = Self::new(archetype, &[]);
        assert(view@ =~= Seq::<Option<(DebugLifetime, T)>>::empty());
        view
    }
}


impl<T> Storage<T> {
    /// The run of `archetype`, to be changed in place, if there is one.
    pub fn get_run_mut(&mut self, archetype: ArchetypeId) -> (run: Option<&mut StorageRun<T>>)
        ensures
            match run {
                Some(run) => {
                    &&& old(self).runs().contains_key(archetype.id)
                    &&& *run == old(self).runs()[archetype.id]
                    &&& final(self).runs() == old(self).runs().insert(archetype.id, *final(run))
                },
                None => {
                    &&& !old(self).runs().contains_key(archetype.id)
                    &&& final(self).runs() == old(self).runs()
                },
            },
    {
        match self.archetypes.entry(archetype.id) {
            Entry::Occupied(entry) => Some(entry.into_mut()),
            Entry::Vacant(_) => None,
        }
    }

    /// The run of `archetype`, to be changed in place; an empty run is
    /// made for the archetype where there is none.
    pub fn get_or_create_run(&mut self, archetype: ArchetypeId) -> (run: &mut StorageRun<T>)
        ensures
            old(self).runs().contains_key(archetype.id) ==> *run == old(self).runs()[archetype.id],
            !old(self).runs().contains_key(archetype.id) ==> {
                &&& run@ == Seq::<Option<(DebugLifetime, T)>>::empty()
                &&& run.spec_archetype() == archetype
            },
            final(self).runs() == old(self).runs().insert(archetype.id, *final(run)),
    {
        self.archetypes.entry(archetype.id).or_insert(StorageRun::new(archetype))
    }

    /// Stores `value` for `entity` in place of what was stored for its
    /// slot, with a new dependent on the entity's lifetime. Returns the
    /// value that was there, whose dependent is released, and the new
    /// value in its place.
    pub fn insert(&mut self, reg: &mut LifetimeRegistry, entity: Entity, value: T) -> (res: (
        Option<T>,
        &mut T,
    ))
        requires
            old(self).wf(),
            entity.slot < u32::MAX,
            old(reg).wf(),
            old(reg)@.can_inc_dep(entity.lifetime.lifetime()),
            can_release(
                old(reg)@.inc_dep(entity.lifetime.lifetime()),
                entity_slot(old(self)@, entity),
            ),
        ensures
            final(self).wf(),
            res.0 == component(old(self)@, entity),
            *res.1 == value,
            final(self)@ == runs_with(old(self)@, entity, *final(res.1)),
            final(reg).wf(),
            final(reg).block_size_spec() == old(reg).block_size_spec(),
            final(reg)@ == released(
                old(reg)@.inc_dep(entity.lifetime.lifetime()),
                entity_slot(old(self)@, entity),
            ),
    {
        let run = self.get_or_create_run(entity.archetype);
        run.insert(reg, entity, value)
    }

    /// Stores `value` for `entity`, which is meant to have none yet; what
    /// was stored for its slot is replaced all the same. Returns the new
    /// value in its place.
    pub fn add(&mut self, reg: &mut LifetimeRegistry, entity: Entity, value: T) -> (added: &mut T)
        requires
            old(self).wf(),
            entity.slot < u32::MAX,
            old(reg).wf(),
            old(reg)@.can_inc_dep(entity.lifetime.lifetime()),
            can_release(
                old(reg)@.inc_dep(entity.lifetime.lifetime()),
                entity_slot(old(self)@, entity),
            ),
        ensures
            final(self).wf(),
            *added == value,
            final(self)@ == runs_with(old(self)@, entity, *final(added)),
            final(reg).wf(),
            final(reg).block_size_spec() == old(reg).block_size_spec(),
            final(reg)@ == released(
                old(reg)@.inc_dep(entity.lifetime.lifetime()),
                entity_slot(old(self)@, entity),
            ),
    {
        self.insert(reg, entity, value).1
    }

    /// Removes the component of `entity` and returns it, if there is one:
    /// its dependent is released, its run is trimmed, and the run is
    /// dropped where that leaves it without slots.
    pub fn try_remove(&mut self, reg: &mut LifetimeRegistry, entity: Entity) -> (removed: Option<
        T,
    >)
        requires
            old(self).wf(),
            old(reg).wf(),
            can_release(old(reg)@, entity_slot(old(self)@, entity)),
        ensures
            final(self).wf(),
            removed == component(old(self)@, entity),
            final(self)@ == runs_without(old(self)@, entity),
            final(reg).wf(),
            final(reg).block_size_spec() == old(reg).block_size_spec(),
            final(reg)@ == released(old(reg)@, entity_slot(old(self)@, entity)),
    {
        let (removed, emptied) = match self.get_run_mut(entity.archetype) {
            Some(run) => {
                let removed = run.remove(reg, entity.slot);
                (removed, run.is_empty())
            },
            None => {
                return None;
            },
        };
        if removed.is_some() && emptied {
            let _ = self.archetypes.remove(&entity.archetype.id);
        }
        proof {
            assert(self@ =~= runs_without(old(self)@, entity));
        }
        removed
    }

    /// Removes the component of `entity`, which is meant to have one.
    pub fn remove(&mut self, reg: &mut LifetimeRegistry, entity: Entity)
        requires
            old(self).wf(),
            old(reg).wf(),
            can_release(old(reg)@, entity_slot(old(self)@, entity)),
        ensures
            final(self).wf(),
            final(self)@ == runs_without(old(self)@, entity),
            final(reg).wf(),
            final(reg).block_size_spec() == old(reg).block_size_spec(),
            final(reg)@ == released(old(reg)@, entity_slot(old(self)@, entity)),
    {
        let _ = self.try_remove(reg, entity);
    }

    /// The component of `entity`, to be changed in place, if there is one.
    pub fn get_mut(&mut self, entity: Entity) -> (value: Option<&mut T>)
        ensures
            old(self).wf() ==> final(self).wf(),
            match value {
                Some(v) => entity_slot(old(self)@, entity) matches Some((lifetime, before))
                    && before == *v && final(self)@ == old(self)@.insert(
                    entity.archetype.id,
                    old(self)@[entity.archetype.id].update(
                        entity.slot as int,
                        Some((lifetime, *final(v))),
                    ),
                ),
                None => component(old(self)@, entity) is None && final(self)@ == old(self)@,
            },
    {
        match self.get_run_mut(entity.archetype) {
            Some(run) => run.get_mut(entity),
            None => None,
        }
    }
}


/// Storage round trip: a value stored for an entity is the entity's
/// component; removing the entity's component returns what was stored and
/// leaves the entity without a component.
pub proof fn law_storage_round_trip<T>(
    runs: Map<u32, Seq<Option<(DebugLifetime, T)>>>,
    entity: Entity,
    value: T,
)
    ensures
        component(runs_with(runs, entity, value), entity) == Some(value),
        entity_slot(runs_with(runs, entity, value), entity) == Some((entity.lifetime, value)),
        component(runs_without(runs, entity), entity) is None,
        component(runs_without(runs_with(runs, entity, value), entity), entity) is None,
{
    lemma_removed_is_gone(runs, entity);
    lemma_removed_is_gone(runs_with(runs, entity, value), entity);
}

proof fn lemma_removed_is_gone<T>(runs: Map<u32, Seq<Option<(DebugLifetime, T)>>>, entity: Entity)
    ensures
        component(runs_without(runs, entity), entity) is None,
{
    let id = entity.archetype.id;
    if runs.contains_key(id) {
        let emptied = runs[id].update(entity.slot as int, None);
        if 0 <= entity.slot < runs[id].len() {
            lemma_trimmed(emptied);
        }
    }
}

/// Storing or removing the component of one entity leaves the component
/// of every entity in another slot as it was.
pub proof fn law_storage_frame<T>(
    runs: Map<u32, Seq<Option<(DebugLifetime, T)>>>,
    entity: Entity,
    value: T,
    other: Entity,
)
    requires
        other.archetype.id != entity.archetype.id || other.slot != entity.slot,
    ensures
        entity_slot(runs_with(runs, entity, value), other) == entity_slot(runs, other),
        entity_slot(runs_without(runs, entity), other) == entity_slot(runs, other),
{
    let id = entity.archetype.id;
    if runs.contains_key(id) && 0 <= entity.slot < runs[id].len() && other.archetype.id == id {
        let emptied = runs[id].update(entity.slot as int, None);
        let i = other.slot as int;
        lemma_trimmed(emptied);
        if i < trimmed(emptied).len() {
            assert(trimmed(emptied)[i] == emptied[i]);
        } else if i < emptied.len() {
            assert(emptied[i] is None);
        }
    }
}

/// Run garbage collection: where the component of `entity` is the only
/// one in the run of its archetype, removing it leaves no run for that
/// archetype.
pub proof fn law_last_component_drops_run<T>(
    runs: Map<u32, Seq<Option<(DebugLifetime, T)>>>,
    entity: Entity,
)
    requires
        component(runs, entity) is Some,
        forall|i: int|
            0 <= i < run_slots(runs, entity.archetype.id).len() && i != entity.slot ==> (
            #[trigger] run_slots(runs, entity.archetype.id)[i]) is None,
    ensures
        !runs_without(runs, entity).contains_key(entity.archetype.id),
{
    let id = entity.archetype.id;
    let emptied = runs[id].update(entity.slot as int, None);
    lemma_trimmed(emptied);
    if trimmed(emptied).len() > 0 {
        let last = trimmed(emptied).len() - 1;
        assert(trimmed(emptied)[last] == emptied[last]);
        assert(run_slots(runs, id)[last] is None || last == entity.slot);
    }
}

impl Entity {
    /// The component of the entity, which must have one.
    pub fn comp<T>(self, storage: &Storage<T>) -> (value: &T)
        requires
            component(storage@, self) is Some,
        ensures
            Some(*value) == component(storage@, self),
    {
        storage.get(self).unwrap()
    }

    /// The component of the entity, which must have one, to be changed in place.
    pub fn comp_mut<T>(self, storage: &mut Storage<T>) -> (value: &mut T)
        requires
            component(old(storage)@, self) is Some,
        ensures
            old(storage).wf() ==> final(storage).wf(),
            entity_slot(old(storage)@, self) matches Some((lifetime, before)) && before == *value
                && final(storage)@ == old(storage)@.insert(
                self.archetype.id,
                old(storage)@[self.archetype.id].update(
                    self.slot as int,
                    Some((lifetime, *final(value))),
                ),
            ),
    {
        storage.get_mut(self).unwrap()
    }
}

/// A bundle of one component.
#[derive(Debug)]
pub struct SingleBundle<T>(pub T);

impl<T> Bundle for SingleBundle<T> {
    type Context = Storage<T>;

    open spec fn can_attach(cx: Storage<T>, reg: RegistryState, target: Entity) -> bool {
        &&& cx.wf()
        &&& target.slot < u32::MAX
        &&& reg.can_inc_dep(target.lifetime.lifetime())
        &&& can_release(reg.inc_dep(target.lifetime.lifetime()), entity_slot(cx@, target))
    }

    open spec fn can_detach(cx: Storage<T>, reg: RegistryState, target: Entity) -> bool {
        &&& cx.wf()
        &&& component(cx@, target) is Some
        &&& can_release(reg, entity_slot(cx@, target))
    }

    open spec fn attached(cx: Storage<T>, target: Entity) -> Option<Self> {
        match component(cx@, target) {
            Some(value) => Some(SingleBundle(value)),
            None => None,
        }
    }

    fn attach(self, cx: &mut Storage<T>, reg: &mut LifetimeRegistry, target: Entity) {
        proof {
            old(reg).lemma_wf();
            old(reg)@.lemma_steps_precede(target.lifetime.lifetime());
            released_precedes(
                old(reg)@.inc_dep(target.lifetime.lifetime()),
                entity_slot(old(cx)@, target),
            );
            old(reg)@.lemma_precedes_trans(
                old(reg)@.inc_dep(target.lifetime.lifetime()),
                released(
                    old(reg)@.inc_dep(target.lifetime.lifetime()),
                    entity_slot(old(cx)@, target),
                ),
            );
            law_storage_round_trip(old(cx)@, target, self.0);
        }
        let _ = cx.add(reg, target, self.0);
    }

    fn detach(cx: &mut Storage<T>, reg: &mut LifetimeRegistry, target: Entity) -> (bundle: Self) {
        proof {
            old(reg).lemma_wf();
            released_precedes(old(reg)@, entity_slot(old(cx)@, target));
            lemma_removed_is_gone(old(cx)@, target);
        }
        SingleBundle(cx.try_remove(reg, target).unwrap())
    }
}

/// Releasing the dependent of a slot leads to a following state, in
/// which the same lifetimes are alive.
pub proof fn released_precedes<T>(reg: RegistryState, slot: Option<(DebugLifetime, T)>)
    requires
        reg.wf(),
    ensures
        reg.precedes(released(reg, slot)),
        forall|l: Lifetime| released(reg, slot).is_alive(l) == reg.is_alive(l),
{
    match slot {
        Some((lifetime, _)) => {
            reg.lemma_steps_precede(lifetime.lifetime());
        },
        None => {
            reg.lemma_precedes_refl();
        },
    }
}


impl<T> SingleEntity<T> {
    /// The component of the entity, which must have one.
    pub fn get(self, storage: &Storage<T>) -> (value: &T)
        requires
            component(storage@, self.entity()) is Some,
        ensures
            Some(*value) == component(storage@, self.entity()),
    {
        storage.get(self.as_entity()).unwrap()
    }

    /// The component of the entity, which must have one, to be changed in place.
    pub fn get_mut(self, storage: &mut Storage<T>) -> (value: &mut T)
        requires
            component(old(storage)@, self.entity()) is Some,
        ensures
            old(storage).wf() ==> final(storage).wf(),
            entity_slot(old(storage)@, self.entity()) matches Some((lifetime, before)) && before
                == *value && final(storage)@ == old(storage)@.insert(
                self.entity().archetype.id,
                old(storage)@[self.entity().archetype.id].update(
                    self.entity().slot as int,
                    Some((lifetime, *final(value))),
                ),
            ),
    {
        storage.get_mut(self.as_entity()).unwrap()
    }
}


/// The runs and the registry state after the components of the first `n`
/// of `entities` were removed, one after the other.
pub open spec fn removed_many<T>(
    runs: Map<u32, Seq<Option<(DebugLifetime, T)>>>,
    reg: RegistryState,
    entities: Seq<Entity>,
    n: nat,
) -> (Map<u32, Seq<Option<(DebugLifetime, T)>>>, RegistryState)
    decreases n,
{
    if n == 0 {
        (runs, reg)
    } else {
        let before = removed_many(runs, reg, entities, (n - 1) as nat);
        (
            runs_without(before.0, entities[n - 1]),
            released(before.1, entity_slot(before.0, entities[n - 1])),
        )
    }
}

/// Whether the components of the first `n` of `entities` can be removed,
/// one after the other, without a dependency counter going below zero.
pub open spec fn can_remove_many<T>(
    runs: Map<u32, Seq<Option<(DebugLifetime, T)>>>,
    reg: RegistryState,
    entities: Seq<Entity>,
    n: nat,
) -> bool
    decreases n,
{
    n > 0 ==> {
        let before = removed_many(runs, reg, entities, (n - 1) as nat);
        &&& can_remove_many(runs, reg, entities, (n - 1) as nat)
        &&& can_release(before.1, entity_slot(before.0, entities[n - 1]))
    }
}

impl<T> Storage<T> {
    /// Removes the components of `entities`, one after the other, as
    /// `try_remove` does.
    pub fn try_remove_many(&mut self, reg: &mut LifetimeRegistry, entities: &[Entity])
        requires
            old(self).wf(),
            old(reg).wf(),
            can_remove_many(old(self)@, old(reg)@, entities@, entities@.len()),
        ensures
            final(self).wf(),
            final(reg).wf(),
            final(reg).block_size_spec() == old(reg).block_size_spec(),
            (final(self)@, final(reg)@) == removed_many(
                old(self)@,
                old(reg)@,
                entities@,
                entities@.len(),
            ),
    {
        let mut done: usize = 0;
        while done < entities.len()
            invariant
                done <= entities@.len(),
                self.wf(),
                reg.wf(),
                reg.block_size_spec() == old(reg).block_size_spec(),
                can_remove_many(old(self)@, old(reg)@, entities@, entities@.len()),
                (self@, reg@) == removed_many(old(self)@, old(reg)@, entities@, done as nat),
            decreases entities@.len() - done,
        {
            proof {
                lemma_can_remove_prefix(
                    old(self)@,
                    old(reg)@,
                    entities@,
                    (done + 1) as nat,
                    entities@.len(),
                );
            }
            let _ = self.try_remove(reg, entities[done]);
            done = done + 1;
        }
    }
}

/// What can be removed up to `n` can be removed up to any `m` below `n`.
proof fn lemma_can_remove_prefix<T>(
    runs: Map<u32, Seq<Option<(DebugLifetime, T)>>>,
    reg: RegistryState,
    entities: Seq<Entity>,
    m: nat,
    n: nat,
)
    requires
        m <= n,
        can_remove_many(runs, reg, entities, n),
    ensures
        can_remove_many(runs, reg, entities, m),
    decreases n - m,
{
    if m < n {
        lemma_can_remove_prefix(runs, reg, entities, m, (n - 1) as nat);
    }
}


/// The registry state after the dependents of all of `slots` were
/// released, from the last slot to the first.
pub open spec fn released_slots<T>(
    reg: RegistryState,
    slots: Seq<Option<(DebugLifetime, T)>>,
) -> RegistryState
    decreases slots.len(),
{
    if slots.len() == 0 {
        reg
    } else {
        released_slots(released(reg, slots.last()), slots.drop_last())
    }
}

/// Whether the dependents of all of `slots` can be released, from the
/// last slot to the first, without a dependency counter going below zero.
pub open spec fn can_release_slots<T>(
    reg: RegistryState,
    slots: Seq<Option<(DebugLifetime, T)>>,
) -> bool
    decreases slots.len(),
{
    slots.len() > 0 ==> can_release(reg, slots.last()) && can_release_slots(
        released(reg, slots.last()),
        slots.drop_last(),
    )
}

/// Whether `order` lists the archetype numbers of the runs, each once.
pub open spec fn lists_runs<T>(
    runs: Map<u32, Seq<Option<(DebugLifetime, T)>>>,
    order: Seq<u32>,
) -> bool {
    order.no_duplicates() && order.to_set() == runs.dom()
}

/// The registry state after the dependents of the runs of the first `n`
/// archetype numbers in `order` were released, run by run.
pub open spec fn cleared<T>(
    runs: Map<u32, Seq<Option<(DebugLifetime, T)>>>,
    reg: RegistryState,
    order: Seq<u32>,
    n: nat,
) -> RegistryState
    decreases n,
{
    if n == 0 {
        reg
    } else {
        released_slots(cleared(runs, reg, order, (n - 1) as nat), run_slots(runs, order[n - 1]))
    }
}

/// Whether the dependents of the runs of the first `n` archetype numbers
/// in `order` can be released, run by run, without a dependency counter
/// going below zero.
pub open spec fn can_clear<T>(
    runs: Map<u32, Seq<Option<(DebugLifetime, T)>>>,
    reg: RegistryState,
    order: Seq<u32>,
    n: nat,
) -> bool
    decreases n,
{
    n > 0 ==> can_clear(runs, reg, order, (n - 1) as nat) && can_release_slots(
        cleared(runs, reg, order, (n - 1) as nat),
        run_slots(runs, order[n - 1]),
    )
}

/// What can be cleared up to `n` can be cleared up to any `m` below `n`.
proof fn lemma_can_clear_prefix<T>(
    runs: Map<u32, Seq<Option<(DebugLifetime, T)>>>,
    reg: RegistryState,
    order: Seq<u32>,
    m: nat,
    n: nat,
)
    requires
        m <= n,
        can_clear(runs, reg, order, n),
    ensures
        can_clear(runs, reg, order, m),
    decreases n - m,
{
    if m < n {
        lemma_can_clear_prefix(runs, reg, order, m, (n - 1) as nat);
    }
}

impl<T> StorageRun<T> {
    /// Ends the run: releases the dependents of its slots, from the last
    /// to the first, and drops the values.
    fn dissolve(self, reg: &mut LifetimeRegistry)
        requires
            old(reg).wf(),
            can_release_slots(old(reg)@, self@),
        ensures
            final(reg).wf(),
            final(reg).block_size_spec() == old(reg).block_size_spec(),
            final(reg)@ == released_slots(old(reg)@, self@),
    {
        let mut rest = self;
        loop
            invariant
                reg.wf(),
                reg.block_size_spec() == old(reg).block_size_spec(),
                can_release_slots(reg@, rest@),
                released_slots(reg@, rest@) == released_slots(old(reg)@, self@),
            ensures
                reg.wf(),
                reg.block_size_spec() == old(reg).block_size_spec(),
                reg@ == released_slots(old(reg)@, self@),
            decreases rest@.len(),
        {
            let ghost before = rest@;
            assert(forall|i: int|
                0 <= i < rest.comps@.len() ==> (#[trigger] rest.comps@[i])@ == rest@[i]);
            match rest.comps.pop() {
                Some(slot) => {
                    assert(slot@ == before.last());
                    assert(rest@ =~= before.drop_last());
                    let _ = slot.into_value(reg);
                },
                None => {
                    break ;
                },
            }
        }
    }
}

impl<T> Storage<T> {
    /// The archetype numbers of the runs, each once, in no particular order.
    pub fn archetype_numbers(&self) -> (numbers: Vec<u32>)
        ensures
            lists_runs(self@, numbers@),
    {
        let mut numbers: Vec<u32> = Vec::new();
        for number in it: self.archetypes.keys()
            invariant
                numbers@.len() == it.index(),
                forall|j: int| 0 <= j < numbers@.len() ==> numbers@[j] == *it.seq()[j],
                it.seq() == spec_keys_iter(&self.archetypes).remaining(),
        {
            numbers.push(*number);
        }
        proof {
            assert(numbers@ =~= spec_keys_iter(&self.archetypes).remaining().unref());
            assert(self@.dom() =~= self.runs().dom());
        }
        numbers
    }

    /// Drops every run: the dependents of all components are released,
    /// run by run, in the order in which the map of runs is walked.
    pub fn clear(&mut self, reg: &mut LifetimeRegistry)
        requires
            old(self).wf(),
            old(reg).wf(),
            forall|order: Seq<u32>|
                lists_runs(old(self)@, order) ==> #[trigger] can_clear(
                    old(self)@,
                    old(reg)@,
                    order,
                    order.len(),
                ),
        ensures
            final(self).wf(),
            final(self)@ == Map::<u32, Seq<Option<(DebugLifetime, T)>>>::empty(),
            final(reg).wf(),
            final(reg).block_size_spec() == old(reg).block_size_spec(),
            exists|order: Seq<u32>|
                lists_runs(old(self)@, order) && final(reg)@ == #[trigger] cleared(
                    old(self)@,
                    old(reg)@,
                    order,
                    order.len(),
                ),
    {
        let numbers = self.archetype_numbers();
        let ghost order = numbers@;
        assert(can_clear(old(self)@, old(reg)@, order, order.len()));
        let mut done: usize = 0;
        while done < numbers.len()
            invariant
                done <= numbers@.len(),
                numbers@ == order,
                lists_runs(old(self)@, order),
                can_clear(old(self)@, old(reg)@, order, order.len()),
                self.wf(),
                reg.wf(),
                reg.block_size_spec() == old(reg).block_size_spec(),
                reg@ == cleared(old(self)@, old(reg)@, order, done as nat),
                self@ == old(self)@.remove_keys(order.subrange(0, done as int).to_set()),
            decreases numbers@.len() - done,
        {
            let number = numbers[done];
            proof {
                lemma_can_clear_prefix(
                    old(self)@,
                    old(reg)@,
                    order,
                    (done + 1) as nat,
                    order.len(),
                );
                assert(order[done as int] == number);
                assert(order.to_set().contains(number));
                assert(!order.subrange(0, done as int).to_set().contains(number));
                assert(self@.contains_key(number));
            }
            let ghost before = self@;
            match self.archetypes.remove(&number) {
                Some(run) => {
                    assert(run@ == before[number]);
                    assert(before[number] == old(self)@[number]);
                    run.dissolve(reg);
                },
                None => {
                    assert(false);
                },
            }
            done = done + 1;
            proof {
                let shorter = order.subrange(0, done as int - 1);
                let longer = order.subrange(0, done as int);
                assert(longer =~= shorter.push(number));
                assert(longer.to_set() =~= shorter.to_set().insert(number)) by {
                    assert forall|id: u32| longer.to_set().contains(id) <==> shorter.to_set().insert(
                        number,
                    ).contains(id) by {
                        if shorter.contains(id) {
                            let j = choose|j: int| 0 <= j < shorter.len() && shorter[j] == id;
                            assert(longer[j] == id);
                        }
                        if longer.contains(id) && id != number {
                            let j = choose|j: int| 0 <= j < longer.len() && longer[j] == id;
                            assert(shorter[j] == id);
                        }
                        if id == number {
                            assert(longer[done as int - 1] == number);
                        }
                    }
                }
                assert(self@ =~= before.remove(number));
                assert(self@ =~= old(self)@.remove_keys(longer.to_set()));
            }
        }
        proof {
            assert(order.subrange(0, done as int) =~= order);
            assert(self@ =~= Map::<u32, Seq<Option<(DebugLifetime, T)>>>::empty());
        }
    }
}


impl<T> Default for StorageSlot<T> {
    fn default() -> (slot: Self)
        ensures
            slot@ is None,
    {
        StorageSlot::Empty
    }
}

impl<T> Default for Storage<T> {
    fn default() -> (storage: Self)
        ensures
            storage.wf(),
            storage@ == Map::<u32, Seq<Option<(DebugLifetime, T)>>>::empty(),
    {
        Storage::new()
    }
}

impl<T> Storage<T> {
    /// Whether `insert` and `add` take `entity`: its slot can be numbered,
    /// and neither counting the new dependent nor releasing the one that
    /// is replaced takes a dependency counter out of range.
    pub fn can_insert(&self, reg: &LifetimeRegistry, entity: Entity) -> (ok: bool)
        ensures
            ok == (entity.slot < u32::MAX && reg@.can_inc_dep(entity.lifetime.lifetime())
                && can_release(
                reg@.inc_dep(entity.lifetime.lifetime()),
                entity_slot(self@, entity),
            )),
    {
        let lifetime = match entity.lifetime.raw() {
            Some(lifetime) => lifetime,
            None => {
                return false;
            },
        };
        if entity.slot == u32::MAX || !reg.can_inc_dep(lifetime) {
            return false;
        }
        let held = match self.archetypes.get(&entity.archetype.id) {
            Some(run) => run.get_slot_by_idx(entity.slot),
            None => None,
        };
        match held {
            Some((replaced, _)) => match replaced.raw() {
                Some(replaced) => {
                    proof {
                        replaced.lemma_eq(lifetime);
                    }
                    replaced == lifetime || reg.can_dec_dep(replaced)
                },
                None => false,
            },
            None => true,
        }
    }

    /// Whether `try_remove` and `remove` take `entity`: releasing the
    /// dependent of what is stored in its slot does not take a dependency
    /// counter below zero.
    pub fn can_remove(&self, reg: &LifetimeRegistry, entity: Entity) -> (ok: bool)
        ensures
            ok == can_release(reg@, entity_slot(self@, entity)),
    {
        let held = match self.archetypes.get(&entity.archetype.id) {
            Some(run) => run.get_slot_by_idx(entity.slot),
            None => None,
        };
        match held {
            Some((removed, _)) => match removed.raw() {
                Some(removed) => reg.can_dec_dep(removed),
                None => false,
            },
            None => true,
        }
    }
}

impl<T> StorageRun<T> {
    /// The slots, to be changed in place. What is done to them is done to
    /// the run, whether or not it leaves the run well-formed.
    pub fn as_mut_slice(&mut self) -> (slots: &mut [StorageSlot<T>])
        ensures
            final(self).spec_archetype() == old(self).spec_archetype(),
            slots@.len() == old(self)@.len(),
            forall|i: int| 0 <= i < slots@.len() ==> (#[trigger] slots@[i])@ == old(self)@[i],
            final(self)@.len() == final(slots)@.len(),
            forall|i: int|
                0 <= i < final(slots)@.len() ==> (#[trigger] final(slots)@[i])@ == final(self)@[i],
    {
        self.comps.as_mut_slice()
    }
}

impl<T> Storage<T> {
    /// The slots of the run of `archetype`, to be changed in place; no
    /// slots where there is no run.
    pub fn get_run_slice_mut(&mut self, archetype: ArchetypeId) -> (slots: &mut [StorageSlot<T>])
        ensures
            slots@.len() == run_slots(old(self)@, archetype.id).len(),
            forall|i: int|
                0 <= i < slots@.len() ==> (#[trigger] slots@[i])@ == run_slots(
                    old(self)@,
                    archetype.id,
                )[i],
            final(self)@.dom() == old(self)@.dom(),
            forall|id: u32|
                old(self)@.contains_key(id) && id != archetype.id ==> final(self)@[id] == old(self)@[id],
            old(self)@.contains_key(archetype.id) ==> {
                &&& final(self)@[archetype.id].len() == final(slots)@.len()
                &&& forall|i: int|
                    0 <= i < final(slots)@.len() ==> (#[trigger] final(slots)@[i])@ == final(self)@[archetype.id][i]
            },
    {
        match self.get_run_mut(archetype) {
            Some(run) => run.as_mut_slice(),
            None => &mut [],
        }
    }
}

} // verus!
