use geode::entity::Archetype;
use geode::lifetime::LifetimeRegistry;
use geode::rand_id::RandIdGen;
use geode::storage::Storage;
use geode::view::CompositeMapper;
use geode::view::IdentityMapping;
use geode::view::Mappable;
use geode::view::MappableMut;
use geode::view::MappedMut;
use geode::view::MappedRef;
use geode::view::MappedStorageMut;
use geode::view::MappedStorageRef;
use geode::view::MapperRefToMapper;
use geode::view::MutMapper;
use geode::view::RefMapper;
use geode::view::StorageView;
use geode::view::StorageViewMut;

#[test]
fn identity_mapping_picks_the_whole() {
    let mut value = 5u32;
    assert_eq!(*IdentityMapping.map_ref(&value), 5);
    *IdentityMapping.map_mut(&mut value) = 6;
    assert_eq!(value, 6);
}

#[test]
fn composite_and_borrowed_mappers_chain() {
    let mut value = "abc".to_string();
    let inner = IdentityMapping;
    let mapper = CompositeMapper(MapperRefToMapper(&inner), IdentityMapping);
    assert_eq!(mapper.map_ref(&value), "abc");
    mapper.map_mut(&mut value).push('d');
    assert_eq!(value, "abcd");
}

#[test]
fn storage_views_read_through_the_trait() {
    let mut reg = LifetimeRegistry::new();
    let mut ids = RandIdGen::new();
    let mut archetype = Archetype::<()>::new(&mut reg, &mut ids, None);
    let with = archetype.spawn(&mut reg, None);
    let without = archetype.spawn(&mut reg, None);
    let mut storage: Storage<u32> = Storage::new();
    storage.add(&mut reg, with, 4);

    assert_eq!(StorageView::get(&storage, with), Some(&4));
    assert!(StorageView::has(&storage, with));
    assert!(!StorageView::has(&storage, without));
    *StorageViewMut::get_mut(&mut storage, with).unwrap() = 5;
    assert!(StorageViewMut::get_mut(&mut storage, without).is_none());

    let run = storage.get_run_mut(archetype.id()).unwrap();
    assert_eq!(StorageView::get(run, with), Some(&5));
    assert!(!StorageView::has(run, without));
    *StorageViewMut::get_mut(run, with).unwrap() = 6;
    assert_eq!(storage.get(with), Some(&6));
}

#[test]
fn mapped_storages_see_the_backing_storage() {
    let mut reg = LifetimeRegistry::new();
    let mut ids = RandIdGen::new();
    let mut archetype = Archetype::<()>::new(&mut reg, &mut ids, None);
    let with = archetype.spawn(&mut reg, None);
    let without = archetype.spawn(&mut reg, None);
    let mut storage: Storage<u32> = Storage::new();
    storage.add(&mut reg, with, 4);

    {
        let mapped: MappedStorageRef<Storage<u32>, IdentityMapping> =
            storage.map_ref(IdentityMapping);
        assert_eq!(mapped.get(with), Some(&4));
        assert_eq!(mapped.get(without), None);
        assert!(mapped.has(with));
        assert!(!mapped.has(without));
    }
    {
        let mut mapped: MappedStorageMut<Storage<u32>, CompositeMapper<IdentityMapping, IdentityMapping>> =
            storage.map_mut(CompositeMapper(IdentityMapping, IdentityMapping));
        assert_eq!(mapped.get(with), Some(&4));
        assert!(mapped.has(with));
        *mapped.get_mut(with).unwrap() += 10;
        assert!(mapped.get_mut(without).is_none());
    }
    assert_eq!(storage.get(with), Some(&14));
}

#[test]
fn mappables_compose_their_mappers() {
    let backing = 3u32;
    let first = MappedRef { backing: &backing, mapper: IdentityMapping };
    let (seen, _) = MappedRef::as_parts(&first);
    assert_eq!(*seen, 3);
    let second = first.map(IdentityMapping);
    assert_eq!(*second.mapper.map_ref(second.backing), 3);

    let mut changed = 1u32;
    let mut outer = MappedMut { backing: &mut changed, mapper: IdentityMapping };
    {
        let (seen, _) = MappedMut::as_parts(&outer);
        assert_eq!(*seen, 1);
    }
    {
        let inner = outer.map_mut(IdentityMapping);
        *inner.mapper.map_mut(inner.backing) = 2;
    }
    {
        let (reached, _) = MappedMut::as_parts_mut(&mut outer);
        *reached += 1;
    }
    assert_eq!(changed, 3);
}
