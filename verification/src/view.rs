use crate::entity::Entity;
use crate::storage::component;
use crate::storage::slot_at;
use crate::storage::slot_value;
use crate::storage::Storage;
use crate::storage::StorageRun;
use vstd::prelude::*;

verus! {

/// A way to look at a part of a value through a shared reference.
pub trait RefMapper<I> {
    type Out;

    /// The part of `v` that the mapper picks.
    spec fn mapped(&self, v: I) -> Self::Out;

    fn map_ref<'r>(&self, v: &'r I) -> (out: &'r Self::Out) where Self: 'r
        ensures
            *out == self.mapped(*v),
    ;
}

/// A way to reach a part of a value through a mutable reference: what is
/// written to the part is written back into the whole.
pub trait MutMapper<I>: RefMapper<I> {
    /// The whole with `part` in place of the part that the mapper picks.
    spec fn put_back(&self, whole: I, part: Self::Out) -> I;

    /// The part of a whole that a part was put back into is that part.
    proof fn lemma_put_get(&self, whole: I, part: Self::Out)
        ensures
            self.mapped(self.put_back(whole, part)) == part,
    ;

    fn map_mut<'r>(&self, v: &'r mut I) -> (out: &'r mut Self::Out) where Self: 'r
        ensures
            *out == self.mapped(*old(v)),
            *final(v) == self.put_back(*old(v), *final(out)),
    ;
}

/// The mapper that picks the whole value.
#[derive(Debug, Copy, Clone, Default)]
pub struct IdentityMapping;

impl<I> RefMapper<I> for IdentityMapping {
    type Out = I;

    open spec fn mapped(&self, v: I) -> I {
        v
    }

    fn map_ref<'r>(&self, v: &'r I) -> (out: &'r I) where Self: 'r {
        v
    }
}

impl<I> MutMapper<I> for IdentityMapping {
    open spec fn put_back(&self, whole: I, part: I) -> I {
        part
    }

    proof fn lemma_put_get(&self, whole: I, part: I) {
    }

    fn map_mut<'r>(&self, v: &'r mut I) -> (out: &'r mut I) where Self: 'r {
        v
    }
}

/// A borrowed mapper, used as a mapper.
#[derive(Debug)]
pub struct MapperRefToMapper<'m, T>(pub &'m T);

impl<'m, I, T: RefMapper<I>> RefMapper<I> for MapperRefToMapper<'m, T> {
    type Out = T::Out;

    open spec fn mapped(&self, v: I) -> T::Out {
        self.0.mapped(v)
    }

    fn map_ref<'r>(&self, v: &'r I) -> (out: &'r T::Out) where Self: 'r {
        self.0.map_ref(v)
    }
}

impl<'m, I, T: MutMapper<I>> MutMapper<I> for MapperRefToMapper<'m, T> {
    open spec fn put_back(&self, whole: I, part: T::Out) -> I {
        self.0.put_back(whole, part)
    }

    proof fn lemma_put_get(&self, whole: I, part: T::Out) {
        self.0.lemma_put_get(whole, part);
    }

    fn map_mut<'r>(&self, v: &'r mut I) -> (out: &'r mut T::Out) where Self: 'r {
        self.0.map_mut(v)
    }
}

/// Two mappers, one applied after the other.
#[derive(Debug, Copy, Clone)]
pub struct CompositeMapper<A, B>(pub A, pub B);

impl<I, A: RefMapper<I>, B: RefMapper<A::Out>> RefMapper<I> for CompositeMapper<A, B> {
    type Out = B::Out;

    open spec fn mapped(&self, v: I) -> B::Out {
        self.1.mapped(self.0.mapped(v))
    }

    fn map_ref<'r>(&self, v: &'r I) -> (out: &'r B::Out) where Self: 'r {
        self.1.map_ref(self.0.map_ref(v))
    }
}

impl<I, A: MutMapper<I>, B: MutMapper<A::Out>> MutMapper<I> for CompositeMapper<A, B> {
    open spec fn put_back(&self, whole: I, part: B::Out) -> I {
        self.0.put_back(whole, self.1.put_back(self.0.mapped(whole), part))
    }

    proof fn lemma_put_get(&self, whole: I, part: B::Out) {
        let inner = self.1.put_back(self.0.mapped(whole), part);
        self.0.lemma_put_get(whole, inner);
        self.1.lemma_put_get(self.0.mapped(whole), part);
    }

    fn map_mut<'r>(&self, v: &'r mut I) -> (out: &'r mut B::Out) where Self: 'r {
        self.1.map_mut(self.0.map_mut(v))
    }
}

/// Something that holds at most one component for an entity and lets it be read.
pub trait StorageView {
    type Comp;

    /// The component held for `entity`, if any.
    spec fn comp_of(&self, entity: Entity) -> Option<Self::Comp>;

    fn get(&self, entity: Entity) -> (value: Option<&Self::Comp>)
        ensures
            value == match self.comp_of(entity) {
                Some(v) => Some(&v),
                None => None,
            },
    ;

    fn has(&self, entity: Entity) -> (has: bool)
        ensures
            has == self.comp_of(entity) is Some,
    ;

    /// The view seen through `mapper`.
    fn map_ref<M: RefMapper<Self::Comp>>(&self, mapper: M) -> (mapped: MappedStorageRef<
        '_,
        Self,
        M,
    >) where Self: Sized
        ensures
            *mapped.storage == *self,
            mapped.mapper == mapper,
    {
        MappedStorageRef { storage: self, mapper }
    }
}

/// A storage view that lets the component of an entity be changed in place.
pub trait StorageViewMut: StorageView {
    /// The component held for `entity`, to be changed in place. The
    /// components in other slots stay as they are.
    fn get_mut(&mut self, entity: Entity) -> (value: Option<&mut Self::Comp>)
        ensures
            match value {
                Some(v) => old(self).comp_of(entity) == Some(*v) && final(self).comp_of(entity)
                    == Some(*final(v)),
                None => old(self).comp_of(entity) is None && final(self).comp_of(entity) is None,
            },
            forall|other: Entity|
                other.slot != entity.slot ==> final(self).comp_of(other) == old(self).comp_of(
                    other,
                ),
    ;

    /// The view seen through `mapper`, to be changed in place.
    fn map_mut<M: MutMapper<Self::Comp>>(&mut self, mapper: M) -> (mapped: MappedStorageMut<
        '_,
        Self,
        M,
    >) where Self: Sized
        ensures
            *mapped.storage == *old(self),
            mapped.mapper == mapper,
            *final(self) == *final(mapped.storage),
    {
        MappedStorageMut { storage: self, mapper }
    }
}

impl<T> StorageView for Storage<T> {
    type Comp = T;

    open spec fn comp_of(&self, entity: Entity) -> Option<T> {
        component(self@, entity)
    }

    fn get(&self, entity: Entity) -> (value: Option<&T>) {
        Storage::get(self, entity)
    }

    fn has(&self, entity: Entity) -> (has: bool) {
        Storage::has(self, entity)
    }
}

impl<T> StorageViewMut for Storage<T> {
    fn get_mut(&mut self, entity: Entity) -> (value: Option<&mut T>) {
        Storage::get_mut(self, entity)
    }
}

impl<T> StorageView for StorageRun<T> {
    type Comp = T;

    open spec fn comp_of(&self, entity: Entity) -> Option<T> {
        slot_value(slot_at(self@, entity.slot as int))
    }

    fn get(&self, entity: Entity) -> (value: Option<&T>) {
        StorageRun::get(self, entity)
    }

    fn has(&self, entity: Entity) -> (has: bool) {
        StorageRun::has(self, entity)
    }
}

impl<T> StorageViewMut for StorageRun<T> {
    fn get_mut(&mut self, entity: Entity) -> (value: Option<&mut T>) {
        StorageRun::get_mut(self, entity)
    }
}

/// A storage view seen through a mapper: the component of an entity is
/// the part that the mapper picks of the component in `storage`.
#[derive(Debug)]
pub struct MappedStorageRef<'a, S, M> {
    pub storage: &'a S,
    pub mapper: M,
}

impl<'a, S: StorageView, M: RefMapper<S::Comp>> StorageView for MappedStorageRef<'a, S, M> {
    type Comp = M::Out;

    open spec fn comp_of(&self, entity: Entity) -> Option<M::Out> {
        match self.storage.comp_of(entity) {
            Some(v) => Some(self.mapper.mapped(v)),
            None => None,
        }
    }

    fn get(&self, entity: Entity) -> (value: Option<&M::Out>) {
        match self.storage.get(entity) {
            Some(v) => Some(self.mapper.map_ref(v)),
            None => None,
        }
    }

    fn has(&self, entity: Entity) -> (has: bool) {
        self.storage.has(entity)
    }
}

/// A storage view seen through a mapper, which lets the part that the
/// mapper picks be changed in place.
#[derive(Debug)]
pub struct MappedStorageMut<'a, S, M> {
    pub storage: &'a mut S,
    pub mapper: M,
}

impl<'a, S: StorageView, M: RefMapper<S::Comp>> StorageView for MappedStorageMut<'a, S, M> {
    type Comp = M::Out;

    open spec fn comp_of(&self, entity: Entity) -> Option<M::Out> {
        match self.storage.comp_of(entity) {
            Some(v) => Some(self.mapper.mapped(v)),
            None => None,
        }
    }

    fn get(&self, entity: Entity) -> (value: Option<&M::Out>) {
        match self.storage.get(entity) {
            Some(v) => Some(self.mapper.map_ref(v)),
            None => None,
        }
    }

    fn has(&self, entity: Entity) -> (has: bool) {
        self.storage.has(entity)
    }
}

impl<'a, S: StorageViewMut, M: MutMapper<S::Comp>> StorageViewMut for MappedStorageMut<'a, S, M> {
    fn get_mut(&mut self, entity: Entity) -> (value: Option<&mut M::Out>) {
        match self.storage.get_mut(entity) {
            Some(v) => {
                proof {
                    let whole = *v;
                    assert forall|part: M::Out| #[trigger]
                        self.mapper.mapped(self.mapper.put_back(whole, part)) == part by {
                        self.mapper.lemma_put_get(whole, part);
                    }
                }
                Some(self.mapper.map_mut(v))
            },
            None => None,
        }
    }
}


/// Something that is a backing value seen through a mapper.
pub trait Mappable {
    type Backing;

    type Mapper;

    /// The backing value.
    spec fn backing(&self) -> Self::Backing;

    /// The mapper through which the backing value is seen.
    spec fn mapper(&self) -> Self::Mapper;

    fn as_parts(me: &Self) -> (parts: (&Self::Backing, &Self::Mapper))
        ensures
            *parts.0 == me.backing(),
            *parts.1 == me.mapper(),
    ;

    /// The same backing value seen through the mapper and then through `mapper_2`.
    fn map<M>(&self, mapper_2: M) -> (mapped: MappedRef<
        '_,
        Self::Backing,
        CompositeMapper<MapperRefToMapper<'_, Self::Mapper>, M>,
    >)
        ensures
            *mapped.backing == self.backing(),
            mapped.mapper == CompositeMapper(MapperRefToMapper(&self.mapper()), mapper_2),
    {
        let (backing, mapper_1) = Self::as_parts(self);
        MappedRef { backing, mapper: CompositeMapper(MapperRefToMapper(mapper_1), mapper_2) }
    }
}

/// A backing value seen through a mapper.
#[derive(Debug)]
pub struct MappedRef<'a, B, M> {
    pub backing: &'a B,
    pub mapper: M,
}

impl<'a, B, M> Mappable for MappedRef<'a, B, M> {
    type Backing = B;

    type Mapper = M;

    open spec fn backing(&self) -> B {
        *self.backing
    }

    open spec fn mapper(&self) -> M {
        self.mapper
    }

    fn as_parts(me: &Self) -> (parts: (&B, &M)) {
        (me.backing, &me.mapper)
    }
}


/// Something that is a backing value seen through a mapper, and lets the
/// backing value be changed in place.
pub trait MappableMut: Mappable {
    fn as_parts_mut(me: &mut Self) -> (parts: (&mut Self::Backing, &Self::Mapper))
        ensures
            *parts.0 == old(me).backing(),
            *parts.1 == old(me).mapper(),
            final(me).backing() == *final(parts.0),
            final(me).mapper() == old(me).mapper(),
    ;

    /// The same backing value, to be changed in place, seen through the
    /// mapper and then through `mapper_2`.
    fn map_mut<M>(&mut self, mapper_2: M) -> (mapped: MappedMut<
        '_,
        Self::Backing,
        CompositeMapper<MapperRefToMapper<'_, Self::Mapper>, M>,
    >)
        ensures
            *mapped.backing == old(self).backing(),
            mapped.mapper == CompositeMapper(MapperRefToMapper(&old(self).mapper()), mapper_2),
            final(self).backing() == *final(mapped.backing),
            final(self).mapper() == old(self).mapper(),
    {
        let (backing, mapper_1) = Self::as_parts_mut(self);
        MappedMut { backing, mapper: CompositeMapper(MapperRefToMapper(mapper_1), mapper_2) }
    }
}

/// A backing value, to be changed in place, seen through a mapper.
#[derive(Debug)]
pub struct MappedMut<'a, B, M> {
    pub backing: &'a mut B,
    pub mapper: M,
}

impl<'a, B, M> Mappable for MappedMut<'a, B, M> {
    type Backing = B;

    type Mapper = M;

    open spec fn backing(&self) -> B {
        *self.backing
    }

    open spec fn mapper(&self) -> M {
        self.mapper
    }

    fn as_parts(me: &Self) -> (parts: (&B, &M)) {
        (&*me.backing, &me.mapper)
    }
}

impl<'a, B, M> MappableMut for MappedMut<'a, B, M> {
    fn as_parts_mut(me: &mut Self) -> (parts: (&mut B, &M)) {
        (&mut *me.backing, &me.mapper)
    }
}


} // verus!
