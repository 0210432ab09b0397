use crate::free_list::has_vacancy;
use crate::free_list::FreeList;
use crate::lifetime::label_view;
use crate::lifetime::DebugLifetime;
use crate::lifetime::DebugLifetimeWrapper;
use crate::lifetime::Lifetime;
use crate::lifetime::LifetimeRegistry;
use crate::lifetime::LifetimeWrapper;
use crate::lifetime::OwnedLifetime;
use crate::lifetime::RegistryState;
use crate::rand_id::RandIdGen;
use std::marker::PhantomData;
use vstd::prelude::*;

verus! {

/// The identity of an archetype: its number, which is never zero for an
/// archetype that was made, and the lifetime it was made with. The number
/// may be handed out again after the archetype is gone; the lifetime is
/// what tells the two apart.
#[derive(Copy, Clone, Debug, PartialEq, Eq, Structural, Hash)]
pub struct ArchetypeId {
    pub lifetime: DebugLifetime,
    pub id: u32,
}

impl DebugLifetimeWrapper for ArchetypeId {
    open spec fn debug_lifetime(self) -> DebugLifetime {
        self.lifetime
    }

    fn as_debug_lifetime(me: Self) -> (l: DebugLifetime) {
        me.lifetime
    }
}

/// The identity of an archetype with a lifetime that can be asked whether
/// the archetype is still there.
#[derive(Copy, Clone, Debug, PartialEq, Eq, Structural, Hash)]
pub struct WeakArchetypeId {
    pub lifetime: Lifetime,
    pub id: u32,
}

impl WeakArchetypeId {
    pub open spec fn spec_as_regular(self) -> ArchetypeId {
        ArchetypeId { lifetime: DebugLifetime::wrap(self.lifetime), id: self.id }
    }

    #[verifier::when_used_as_spec(spec_as_regular)]
    pub fn as_regular(self) -> (id: ArchetypeId)
        ensures
            id == self.spec_as_regular(),
            id.lifetime.lifetime() == self.lifetime,
    {
        ArchetypeId { lifetime: DebugLifetime::from_lifetime(self.lifetime), id: self.id }
    }

    /// The regular identity, if the archetype is alive.
    pub fn try_as_regular(self, reg: &LifetimeRegistry) -> (id: Option<ArchetypeId>)
        ensures
            id == (if reg@.is_alive(self.lifetime) {
                Some(self.spec_as_regular())
            } else {
                None
            }),
    {
        if self.lifetime.is_alive(reg) {
            Some(self.as_regular())
        } else {
            None
        }
    }

    pub fn is_alive(self, reg: &LifetimeRegistry) -> (alive: bool)
        ensures
            alive == reg@.is_alive(self.lifetime),
    {
        self.lifetime.is_alive(reg)
    }

    /// The identity itself, if the archetype is alive.
    pub fn filter_alive(self, reg: &LifetimeRegistry) -> (kept: Option<Self>)
        ensures
            kept == (if reg@.is_alive(self.lifetime) {
                Some(self)
            } else {
                None
            }),
    {
        if self.lifetime.is_alive(reg) {
            Some(self)
        } else {
            None
        }
    }
}

impl DebugLifetimeWrapper for WeakArchetypeId {
    open spec fn debug_lifetime(self) -> DebugLifetime {
        DebugLifetime::wrap(self.lifetime)
    }

    fn as_debug_lifetime(me: Self) -> (l: DebugLifetime) {
        DebugLifetime::from_lifetime(me.lifetime)
    }
}

impl LifetimeWrapper for WeakArchetypeId {
    fn as_lifetime(me: Self) -> (l: Lifetime) {
        proof {
            DebugLifetime::wrap(me.lifetime).lemma_wrap(me.lifetime);
        }
        me.lifetime
    }
}

/// One member of an archetype: its own lifetime, the archetype it was
/// spawned in, and its slot in that archetype's table.
#[derive(Copy, Clone, Debug, PartialEq, Eq, Structural, Hash)]
pub struct Entity {
    pub lifetime: DebugLifetime,
    pub archetype: ArchetypeId,
    pub slot: u32,
}

impl Entity {
    pub fn slot_usize(self) -> (slot: usize)
        ensures
            slot == self.slot,
    {
        self.slot as usize
    }
}

impl DebugLifetimeWrapper for Entity {
    open spec fn debug_lifetime(self) -> DebugLifetime {
        self.lifetime
    }

    fn as_debug_lifetime(me: Self) -> (l: DebugLifetime) {
        me.lifetime
    }
}

/// An entity that is known to carry a component of type `T`.
#[derive(Debug)]
pub struct SingleEntity<T> {
    _ty: PhantomData<T>,
    entity: Entity,
}

impl<T> Clone for SingleEntity<T> {
    fn clone(&self) -> (single: Self)
        ensures
            single == *self,
    {
        SingleEntity { _ty: PhantomData, entity: self.entity }
    }
}

impl<T> Copy for SingleEntity<T> {

}

impl<T> SingleEntity<T> {
    /// The entity that is tagged.
    pub closed spec fn entity(self) -> Entity {
        self.entity
    }

    pub fn new(entity: Entity) -> (single: Self)
        ensures
            single.entity() == entity,
    {
        Self { _ty: PhantomData, entity }
    }

    pub fn as_entity(self) -> (entity: Entity)
        ensures
            entity == self.entity(),
    {
        self.entity
    }

    /// The same entity under another component type.
    pub fn cast<U>(self) -> (single: SingleEntity<U>)
        ensures
            single.entity() == self.entity(),
    {
        SingleEntity::new(self.as_entity())
    }
}

/// Why `Archetype::despawn` left an entity alone.
#[derive(Copy, Clone, Debug, PartialEq, Eq, Structural)]
pub enum DespawnError {
    /// The entity names another archetype.
    WrongArchetype,
    /// The entity's lifetime is dead already.
    DeadEntity,
    /// The entity's slot does not hold the entity.
    UnknownSlot,
}

/// A group of entities: it owns its own lifetime and, slot by slot, the
/// lifetime of each entity spawned in it. `M` only tags the type.
pub struct Archetype<M: ?Sized> {
    _ty: PhantomData<M>,
    id: u32,
    lifetime: OwnedLifetime<Lifetime>,
    slots: FreeList<OwnedLifetime<DebugLifetime>>,
}

/// The lifetime that a slot of an archetype holds.
pub open spec fn held_lifetime(slot: Option<OwnedLifetime<DebugLifetime>>) -> Option<
    DebugLifetime,
> {
    match slot {
        Some(owned) => Some(owned.inner()),
        None => None,
    }
}

/// Where a spawn may land in a slot table: in a vacant slot if there is
/// one, whichever it is, and behind the last slot otherwise.
pub open spec fn spawn_lands(table: Seq<Option<DebugLifetime>>, slot: int) -> bool {
    if has_vacancy(table) {
        0 <= slot < table.len() && table[slot] is None
    } else {
        slot == table.len()
    }
}

/// The slot table after an entity with `lifetime` was spawned in `slot`.
pub open spec fn table_after_spawn(
    table: Seq<Option<DebugLifetime>>,
    slot: int,
    lifetime: DebugLifetime,
) -> Seq<Option<DebugLifetime>> {
    if slot < table.len() {
        table.update(slot, Some(lifetime))
    } else {
        table.push(Some(lifetime))
    }
}

/// The registry state after the lifetimes in the first `n` slots of
/// `table` were destroyed, slot by slot.
pub open spec fn destroy_first(
    reg: RegistryState,
    table: Seq<Option<DebugLifetime>>,
    n: nat,
) -> RegistryState
    decreases n,
{
    if n == 0 {
        reg
    } else {
        let before = destroy_first(reg, table, (n - 1) as nat);
        match table[n - 1] {
            Some(l) => before.destroy(l.lifetime()),
            None => before,
        }
    }
}

/// Destroying the lifetimes of a slot table leads to a following state in
/// which none of them is alive.
pub proof fn lemma_destroy_first(reg: RegistryState, table: Seq<Option<DebugLifetime>>, n: nat)
    requires
        reg.wf(),
        n <= table.len(),
    ensures
        destroy_first(reg, table, n).wf(),
        reg.precedes(destroy_first(reg, table, n)),
        forall|l: Lifetime| !reg.is_alive(l) ==> !destroy_first(reg, table, n).is_alive(l),
        forall|i: int|
            0 <= i < n ==> ((#[trigger] table[i]) matches Some(l) ==> !destroy_first(
                reg,
                table,
                n,
            ).is_alive(l.lifetime())),
    decreases n,
{
    if n > 0 {
        let before = destroy_first(reg, table, (n - 1) as nat);
        lemma_destroy_first(reg, table, (n - 1) as nat);
        if let Some(l) = table[n - 1] {
            before.lemma_steps_precede(l.lifetime());
            reg.lemma_precedes_trans(before, before.destroy(l.lifetime()));
        }
    }
}

/// Slot reuse: once the entity in slot `k` is despawned the table has a
/// vacancy, so the next spawn lands in a vacant slot and the table does
/// not grow; where slot `k` is the only vacancy, it lands in slot `k`.
pub proof fn law_freed_slot_is_reused(table: Seq<Option<DebugLifetime>>, k: int, slot: int)
    requires
        0 <= k < table.len(),
        spawn_lands(table.update(k, None), slot),
    ensures
        0 <= slot < table.len(),
        table.update(k, None)[slot] is None,
        forall|l: DebugLifetime|
            table_after_spawn(table.update(k, None), slot, l).len() == table.len(),
        (forall|j: int| 0 <= j < table.len() && j != k ==> (#[trigger] table[j]) is Some) ==> slot
            == k,
{
    assert(table.update(k, None)[k] is None);
}

/// Archetype isolation, first half: the identity of an archetype that is
/// newly made differs from the identity of every archetype made before it
/// with the same registry, whether that one is still there or not.
pub proof fn law_archetype_ids_differ(
    reg: RegistryState,
    next: RegistryState,
    first: ArchetypeId,
    second: ArchetypeId,
    name: Option<Seq<char>>,
)
    requires
        reg.wf(),
        reg.has_issued(first.lifetime.lifetime()),
        reg.allocates(next, second.lifetime.lifetime(), name),
    ensures
        first != second,
{
    reg.lemma_allocates(next, second.lifetime.lifetime(), name);
}

impl<M: ?Sized> Archetype<M> {
    /// The archetype's lifetime.
    pub closed spec fn spec_lifetime(&self) -> Lifetime {
        self.lifetime.inner()
    }

    /// The archetype's number.
    pub closed spec fn spec_number(&self) -> u32 {
        self.id
    }

    /// The archetype's identity.
    pub open spec fn spec_id(&self) -> ArchetypeId {
        ArchetypeId {
            lifetime: DebugLifetime::wrap(self.spec_lifetime()),
            id: self.spec_number(),
        }
    }

    /// The slot table: for each slot the lifetime of the entity in it, if any.
    pub closed spec fn slots(&self) -> Seq<Option<DebugLifetime>> {
        Seq::new(self.slots@.len(), |i: int| held_lifetime(self.slots@[i]))
    }

    /// The number is not zero, and the slot table is well-formed.
    pub closed spec fn wf(&self) -> bool {
        &&& self.id != 0
        &&& self.slots.wf()
    }

    /// The most slots that an archetype can have.
    pub open spec fn max_slots() -> int {
        FreeList::<OwnedLifetime<DebugLifetime>>::max_slots()
    }

    /// Whether one more entity can be spawned: a slot is vacant or the table can grow.
    pub open spec fn can_spawn(&self) -> bool {
        has_vacancy(self.slots()) || self.slots().len() < Self::max_slots()
    }

    proof fn lemma_vacancy(&self)
        ensures
            has_vacancy(self.slots()) == has_vacancy(self.slots@),
            self.can_spawn() == self.slots.can_alloc(),
    {
        if has_vacancy(self.slots()) {
            let i = choose|i: int| 0 <= i < self.slots().len() && (#[trigger] self.slots()[i]) is None;
            assert(self.slots@[i] is None);
        }
        if has_vacancy(self.slots@) {
            let i = choose|i: int| 0 <= i < self.slots@.len() && (#[trigger] self.slots@[i]) is None;
            assert(self.slots()[i] is None);
        }
    }

    /// Makes an archetype with a number that no other archetype of `ids`
    /// has at the moment, and with a new lifetime.
    pub fn new(reg: &mut LifetimeRegistry, ids: &mut RandIdGen, name: Option<String>) -> (arch:
        Self)
        requires
            old(reg).wf(),
            old(ids).wf(),
            old(ids).can_alloc(),
        ensures
            arch.wf(),
            arch.slots() == Seq::<Option<DebugLifetime>>::empty(),
            final(ids).wf(),
            !old(ids)@.contains(arch.spec_number()),
            arch.spec_number() != 0,
            final(ids)@ == old(ids)@.insert(arch.spec_number()),
            final(reg).wf(),
            final(reg).block_size_spec() == old(reg).block_size_spec(),
            old(reg)@.allocates(final(reg)@, arch.spec_lifetime(), label_view(name)),
            old(reg)@.precedes(final(reg)@),
            !old(reg)@.has_issued(arch.spec_lifetime()),
            final(reg)@.is_alive(arch.spec_lifetime()),
    {
        let arch = Archetype {
            _ty: PhantomData,
            id: alloc_id(ids),
            lifetime: OwnedLifetime::new(Lifetime::new(reg, name)),
            slots: FreeList::new(),
        };
        assert(arch.slots() =~= Seq::<Option<DebugLifetime>>::empty());
        arch
    }

    /// Spawns an entity under `name`: it gets a new lifetime and a vacant
    /// slot if there is one, a new slot at the end of the table otherwise.
    pub fn spawn(&mut self, reg: &mut LifetimeRegistry, name: Option<String>) -> (entity: Entity)
        requires
            old(self).wf(),
            old(self).can_spawn(),
            old(reg).wf(),
        ensures
            final(self).wf(),
            final(self).spec_id() == old(self).spec_id(),
            entity.archetype == old(self).spec_id(),
            spawn_lands(old(self).slots(), entity.slot as int),
            final(self).slots() == table_after_spawn(
                old(self).slots(),
                entity.slot as int,
                entity.lifetime,
            ),
            final(reg).wf(),
            final(reg).block_size_spec() == old(reg).block_size_spec(),
            old(reg)@.allocates(final(reg)@, entity.lifetime.lifetime(), label_view(name)),
            old(reg)@.precedes(final(reg)@),
            !old(reg)@.has_issued(entity.lifetime.lifetime()),
            final(reg)@.is_alive(entity.lifetime.lifetime()),
    {
        proof {
            self.lemma_vacancy();
        }
        let lifetime = DebugLifetime::new(reg, name);
        let slot = self.slots.allocate(OwnedLifetime::new(lifetime));
        proof {
            assert(self.slots() =~= table_after_spawn(old(self).slots(), slot as int, lifetime));
        }
        Entity { lifetime, archetype: self.id(), slot }
    }

    /// What `despawn` makes of `entity` in the registry state `reg`.
    pub open spec fn despawn_check(&self, reg: RegistryState, entity: Entity) -> Result<
        (),
        DespawnError,
    > {
        if entity.archetype.id != self.spec_number() {
            Err(DespawnError::WrongArchetype)
        } else if !reg.is_alive(entity.lifetime.lifetime()) {
            Err(DespawnError::DeadEntity)
        } else if !(entity.slot < self.slots().len() && self.slots()[entity.slot as int] == Some(
            entity.lifetime,
        )) {
            Err(DespawnError::UnknownSlot)
        } else {
            Ok(())
        }
    }

    /// Despawns `entity`: destroys its lifetime and makes its slot vacant.
    /// An entity of another archetype, a dead entity, and an entity that is
    /// not in its slot are refused, and nothing changes. The entity's
    /// components stay where they are, in whatever storage holds them.
    pub fn despawn(&mut self, reg: &mut LifetimeRegistry, entity: Entity) -> (result: Result<
        (),
        DespawnError,
    >)
        requires
            old(self).wf(),
            old(reg).wf(),
        ensures
            final(self).wf(),
            final(self).spec_id() == old(self).spec_id(),
            final(reg).wf(),
            final(reg).block_size_spec() == old(reg).block_size_spec(),
            result == old(self).despawn_check(old(reg)@, entity),
            result is Ok ==> final(self).slots() == old(self).slots().update(
                entity.slot as int,
                None,
            ) && final(reg)@ == old(reg)@.destroy(entity.lifetime.lifetime()),
            result is Err ==> final(self).slots() == old(self).slots() && final(reg)@ == old(reg)@,
    {
        if entity.archetype.id != self.id {
            return Err(DespawnError::WrongArchetype);
        }
        if entity.lifetime.is_condemned(reg) {
            return Err(DespawnError::DeadEntity);
        }
        let holds = match self.slots.get(entity.slot) {
            Some(owned) => owned.get() == entity.lifetime,
            None => false,
        };
        if !holds {
            return Err(DespawnError::UnknownSlot);
        }
        match self.slots.dealloc(entity.slot) {
            Some(owned) => owned.destroy(reg),
            None => {},
        }
        assert(self.slots() =~= old(self).slots().update(entity.slot as int, None));
        Ok(())
    }

    pub fn id(&self) -> (id: ArchetypeId)
        ensures
            id == self.spec_id(),
            id.lifetime.lifetime() == self.spec_lifetime(),
            self.wf() ==> id.id != 0,
    {
        ArchetypeId { lifetime: DebugLifetime::from_lifetime(self.lifetime.get()), id: self.id }
    }

    pub fn weak_id(&self) -> (id: WeakArchetypeId)
        ensures
            id.lifetime == self.spec_lifetime(),
            id.id == self.spec_number(),
            id.spec_as_regular() == self.spec_id(),
    {
        WeakArchetypeId { lifetime: self.lifetime.get(), id: self.id }
    }

    pub fn lifetime(&self) -> (lifetime: Lifetime)
        ensures
            lifetime == self.spec_lifetime(),
    {
        self.lifetime.get()
    }

    /// The number of slots in the table, vacant or not.
    pub fn slot_count(&self) -> (n: usize)
        ensures
            n == self.slots().len(),
    {
        self.slots.len()
    }

    /// Whether `spawn` has no slot left to give.
    pub fn is_full(&self) -> (full: bool)
        requires
            self.wf(),
        ensures
            full == !self.can_spawn(),
    {
        proof {
            self.lemma_vacancy();
        }
        self.slots.is_full()
    }

    /// Ends the archetype: destroys the lifetime of every entity in its
    /// table, then its own lifetime, and takes its number out of use.
    pub fn destroy(self, reg: &mut LifetimeRegistry, ids: &mut RandIdGen)
        requires
            self.wf(),
            old(reg).wf(),
            old(ids).wf(),
        ensures
            final(ids).wf(),
            final(ids)@ == old(ids)@.remove(self.spec_number()),
            final(reg).wf(),
            final(reg).block_size_spec() == old(reg).block_size_spec(),
            final(reg)@ == destroy_first(
                old(reg)@,
                self.slots(),
                self.slots().len(),
            ).destroy(self.spec_lifetime()),
            old(reg)@.precedes(final(reg)@),
            !final(reg)@.is_alive(self.spec_lifetime()),
            forall|i: int|
                0 <= i < self.slots().len() ==> ((#[trigger] self.slots()[i]) matches Some(l)
                    ==> !final(reg)@.is_alive(l.lifetime())),
    {
        let ghost table = self.slots();
        let Archetype { _ty, id, lifetime, slots } = self;
        let mut slots = slots;
        let count = slots.len();
        proof {
            slots.lemma_wf();
            old(reg).lemma_wf();
        }
        let mut index: usize = 0;
        while index < count
            invariant
                slots.wf(),
                slots@.len() == count,
                table.len() == count,
                count <= FreeList::<OwnedLifetime<DebugLifetime>>::max_slots(),
                index <= count,
                forall|i: int| index <= i < count ==> held_lifetime(#[trigger] slots@[i]) == table[i],
                reg.wf(),
                reg.block_size_spec() == old(reg).block_size_spec(),
                reg@ == destroy_first(old(reg)@, table, index as nat),
            decreases count - index,
        {
            match slots.dealloc(index as u32) {
                Some(owned) => owned.destroy(reg),
                None => {},
            }
            index = index + 1;
        }
        proof {
            DebugLifetime::wrap(self.spec_lifetime()).lemma_wrap(self.spec_lifetime());
        }
        lifetime.destroy(reg);
        dealloc_id(ids, id);
        proof {
            let swept = destroy_first(old(reg)@, table, count as nat);
            lemma_destroy_first(old(reg)@, table, count as nat);
            swept.lemma_steps_precede(self.spec_lifetime());
            old(reg)@.lemma_precedes_trans(swept, reg@);
        }
    }

    /// The same archetype under another tag.
    pub fn cast_marker<N: ?Sized>(self) -> (arch: Archetype<N>)
        ensures
            arch.wf() == self.wf(),
            arch.spec_id() == self.spec_id(),
            arch.slots() == self.slots(),
    {
        let arch = Archetype { _ty: PhantomData, id: self.id, lifetime: self.lifetime, slots: self.slots };
        assert(arch.slots() =~= self.slots());
        arch
    }
}

impl<M: ?Sized> Archetype<M> {
    /// Archetype isolation, second half: where the number of one of two
    /// archetypes was taken into use while the number of the other was in
    /// use, so that some set of numbers in use held one and not the
    /// other, neither archetype despawns an entity of the other.
    pub proof fn law_foreign_entity_refused(&self, ids: Set<u32>, reg: RegistryState, entity: Entity)
        requires
            ids.contains(entity.archetype.id) != ids.contains(self.spec_number()),
        ensures
            self.despawn_check(reg, entity) == Err::<(), DespawnError>(
                DespawnError::WrongArchetype,
            ),
    {
    }
}

/// Takes a new archetype number into use.
pub fn alloc_id(ids: &mut RandIdGen) -> (id: u32)
    requires
        old(ids).wf(),
        old(ids).can_alloc(),
    ensures
        final(ids).wf(),
        id != 0,
        !old(ids)@.contains(id),
        final(ids)@ == old(ids)@.insert(id),
{
    ids.allocate()
}

/// Takes an archetype number out of use.
pub fn dealloc_id(ids: &mut RandIdGen, id: u32)
    requires
        old(ids).wf(),
    ensures
        final(ids).wf(),
        final(ids)@ == old(ids)@.remove(id),
{
    ids.dealloc(id);
}

/// A group of components that is attached to an entity, or detached from
/// it, in one go.
pub trait Bundle: Sized {
    /// The storages that the components of the bundle are kept in.
    type Context;

    /// Whether a bundle can be attached to `target`.
    spec fn can_attach(cx: Self::Context, reg: RegistryState, target: Entity) -> bool;

    /// Whether the bundle of `target` can be detached.
    spec fn can_detach(cx: Self::Context, reg: RegistryState, target: Entity) -> bool;

    /// The bundle that `target` has, if it has every component of one.
    spec fn attached(cx: Self::Context, target: Entity) -> Option<Self>;

    /// Stores the components of the bundle for `target`.
    fn attach(self, cx: &mut Self::Context, reg: &mut LifetimeRegistry, target: Entity)
        requires
            old(reg).wf(),
            Self::can_attach(*old(cx), old(reg)@, target),
        ensures
            final(reg).wf(),
            final(reg).block_size_spec() == old(reg).block_size_spec(),
            old(reg)@.precedes(final(reg)@),
            Self::attached(*final(cx), target) == Some(self),
    ;

    /// Takes the components of the bundle of `target` out of their storages.
    fn detach(cx: &mut Self::Context, reg: &mut LifetimeRegistry, target: Entity) -> (bundle: Self)
        requires
            old(reg).wf(),
            Self::can_detach(*old(cx), old(reg)@, target),
        ensures
            final(reg).wf(),
            final(reg).block_size_spec() == old(reg).block_size_spec(),
            old(reg)@.precedes(final(reg)@),
            forall|l: Lifetime| final(reg)@.is_alive(l) == old(reg)@.is_alive(l),
            Some(bundle) == Self::attached(*old(cx), target),
            Self::attached(*final(cx), target) is None,
    ;
}

impl<M: Bundle> Archetype<M> {
    /// Spawns an entity under `name`, as `spawn` does, and attaches
    /// `bundle` to it. The bundle must be attachable to whatever entity
    /// the spawn may yield.
    pub fn spawn_with(
        &mut self,
        reg: &mut LifetimeRegistry,
        cx: &mut M::Context,
        name: Option<String>,
        bundle: M,
    ) -> (entity: Entity)
        requires
            old(self).wf(),
            old(self).can_spawn(),
            old(reg).wf(),
            forall|next: RegistryState, entity: Entity|
                entity.archetype == old(self).spec_id() && spawn_lands(
                    old(self).slots(),
                    entity.slot as int,
                ) && old(reg)@.allocates(next, entity.lifetime.lifetime(), label_view(name))
                    ==> #[trigger] M::can_attach(*old(cx), next, entity),
        ensures
            final(self).wf(),
            final(self).spec_id() == old(self).spec_id(),
            entity.archetype == old(self).spec_id(),
            spawn_lands(old(self).slots(), entity.slot as int),
            final(self).slots() == table_after_spawn(
                old(self).slots(),
                entity.slot as int,
                entity.lifetime,
            ),
            final(reg).wf(),
            final(reg).block_size_spec() == old(reg).block_size_spec(),
            old(reg)@.precedes(final(reg)@),
            !old(reg)@.has_issued(entity.lifetime.lifetime()),
            M::attached(*final(cx), entity) == Some(bundle),
    {
        let target = self.spawn(reg, name);
        let ghost spawned = reg@;
        bundle.attach(cx, reg, target);
        proof {
            old(reg)@.lemma_precedes_trans(spawned, reg@);
        }
        target
    }

    /// Detaches the bundle of `entity` and returns it, and despawns the
    /// entity as `despawn` does, which may refuse.
    pub fn despawn_and_extract(
        &mut self,
        reg: &mut LifetimeRegistry,
        cx: &mut M::Context,
        entity: Entity,
    ) -> (bundle: M)
        requires
            old(self).wf(),
            old(reg).wf(),
            M::can_detach(*old(cx), old(reg)@, entity),
        ensures
            final(self).wf(),
            final(self).spec_id() == old(self).spec_id(),
            final(reg).wf(),
            final(reg).block_size_spec() == old(reg).block_size_spec(),
            old(reg)@.precedes(final(reg)@),
            Some(bundle) == M::attached(*old(cx), entity),
            M::attached(*final(cx), entity) is None,
            old(self).despawn_check(old(reg)@, entity) is Ok ==> {
                &&& final(self).slots() == old(self).slots().update(entity.slot as int, None)
                &&& !final(reg)@.is_alive(entity.lifetime.lifetime())
            },
            old(self).despawn_check(old(reg)@, entity) is Err ==> final(self).slots() == old(self).slots(),
    {
        let bundle = M::detach(cx, reg, entity);
        let ghost detached = reg@;
        proof {
            reg.lemma_wf();
        }
        let _ = self.despawn(reg, entity);
        proof {
            detached.lemma_steps_precede(entity.lifetime.lifetime());
            detached.lemma_precedes_refl();
            old(reg)@.lemma_precedes_trans(detached, reg@);
        }
        bundle
    }
}


} // verus!
