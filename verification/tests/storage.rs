use geode::entity::Archetype;
use geode::entity::Bundle;
use geode::entity::Entity;
use geode::entity::SingleEntity;
use geode::lifetime::LifetimeRegistry;
use geode::rand_id::RandIdGen;
use geode::storage::SingleBundle;
use geode::storage::Storage;
use geode::storage::StorageRun;
use geode::storage::StorageRunView;
use geode::storage::StorageSlot;

#[test]
fn storage_round_trip() {
    let mut reg = LifetimeRegistry::new();
    let mut ids = RandIdGen::new();
    let mut archetype = Archetype::<()>::new(&mut reg, &mut ids, None);
    let entity = archetype.spawn(&mut reg, None);
    let mut storage: Storage<u32> = Storage::new();

    assert_eq!(storage.get(entity), None);
    assert!(!storage.has(entity));
    assert_eq!(*storage.add(&mut reg, entity, 42), 42);
    assert_eq!(storage.get(entity), Some(&42));
    assert!(storage.has(entity));
    assert_eq!(reg.dep_count(entity.lifetime.raw().unwrap()), 1);

    assert_eq!(storage.try_remove(&mut reg, entity), Some(42));
    assert_eq!(storage.get(entity), None);
    assert!(!storage.has(entity));
    assert_eq!(storage.try_remove(&mut reg, entity), None);
    assert_eq!(reg.dep_count(entity.lifetime.raw().unwrap()), 0);
}

#[test]
fn run_is_dropped_when_its_last_component_is_removed() {
    let mut reg = LifetimeRegistry::new();
    let mut ids = RandIdGen::new();
    let mut archetype = Archetype::<()>::new(&mut reg, &mut ids, None);
    let first = archetype.spawn(&mut reg, None);
    let second = archetype.spawn(&mut reg, None);
    let mut storage: Storage<&str> = Storage::new();
    assert!(storage.get_run(archetype.id()).is_none());

    storage.add(&mut reg, first, "first");
    storage.add(&mut reg, second, "second");
    assert_eq!(storage.get_run(archetype.id()).unwrap().max_slot(), 2);

    storage.remove(&mut reg, first);
    assert!(storage.get_run(archetype.id()).is_some());
    assert_eq!(storage.get_run(archetype.id()).unwrap().max_slot(), 2);
    storage.remove(&mut reg, second);
    assert!(storage.get_run(archetype.id()).is_none());
}

#[test]
fn run_is_trimmed_when_its_last_slot_is_emptied() {
    let mut reg = LifetimeRegistry::new();
    let mut ids = RandIdGen::new();
    let mut archetype = Archetype::<()>::new(&mut reg, &mut ids, None);
    let entities: Vec<Entity> = (0..6).map(|_| archetype.spawn(&mut reg, None)).collect();
    let mut storage: Storage<u32> = Storage::new();

    storage.add(&mut reg, entities[1], 1);
    storage.add(&mut reg, entities[5], 5);
    let slots = storage.get_run_slice(archetype.id());
    assert_eq!(slots.len(), 6);
    assert!(!slots[0].is_full());
    assert!(slots[1].is_full());
    assert!(!slots[4].is_full());
    assert!(slots[5].is_full());
    assert_eq!(slots[5].value(), Some(&5));
    assert_eq!(slots[5].pair(), Some((entities[5].lifetime, &5)));

    assert_eq!(storage.try_remove(&mut reg, entities[5]), Some(5));
    assert_eq!(storage.get_run_slice(archetype.id()).len(), 2);
    assert_eq!(storage.get(entities[1]), Some(&1));
    assert_eq!(storage.try_remove(&mut reg, entities[3]), None);
    assert_eq!(storage.get_run_slice(archetype.id()).len(), 2);
}

#[test]
fn insert_replaces_and_returns_the_previous_value() {
    let mut reg = LifetimeRegistry::new();
    let mut ids = RandIdGen::new();
    let mut archetype = Archetype::<()>::new(&mut reg, &mut ids, None);
    let entity = archetype.spawn(&mut reg, None);
    let raw = entity.lifetime.raw().unwrap();
    let mut storage: Storage<String> = Storage::new();

    let (previous, placed) = storage.insert(&mut reg, entity, "one".to_string());
    assert_eq!(previous, None);
    placed.push_str(" and a half");
    assert_eq!(storage.get(entity), Some(&"one and a half".to_string()));
    assert_eq!(reg.dep_count(raw), 1);

    let (previous, placed) = storage.insert(&mut reg, entity, "two".to_string());
    assert_eq!(previous, Some("one and a half".to_string()));
    assert_eq!(placed, "two");
    assert_eq!(reg.dep_count(raw), 1);

    assert_eq!(*storage.add(&mut reg, entity, "three".to_string()), "three");
    assert_eq!(storage.get(entity), Some(&"three".to_string()));
    assert_eq!(reg.dep_count(raw), 1);
}

#[test]
fn get_mut_changes_a_component_in_place() {
    let mut reg = LifetimeRegistry::new();
    let mut ids = RandIdGen::new();
    let mut archetype = Archetype::<()>::new(&mut reg, &mut ids, None);
    let entity = archetype.spawn(&mut reg, None);
    let other = archetype.spawn(&mut reg, None);
    let mut storage: Storage<u32> = Storage::new();
    storage.add(&mut reg, entity, 1);
    storage.add(&mut reg, other, 10);

    *storage.get_mut(entity).unwrap() += 1;
    assert_eq!(storage.get(entity), Some(&2));
    assert_eq!(storage.get(other), Some(&10));
    *entity.comp_mut(&mut storage) += 1;
    assert_eq!(*entity.comp(&storage), 3);

    storage.remove(&mut reg, other);
    assert!(storage.get_mut(other).is_none());
    let single = SingleEntity::<u32>::new(entity);
    *single.get_mut(&mut storage) += 1;
    assert_eq!(*single.get(&storage), 4);
}

#[test]
fn storages_keep_archetypes_apart() {
    let mut reg = LifetimeRegistry::new();
    let mut ids = RandIdGen::new();
    let mut first = Archetype::<()>::new(&mut reg, &mut ids, None);
    let mut second = Archetype::<()>::new(&mut reg, &mut ids, None);
    let a = first.spawn(&mut reg, None);
    let b = second.spawn(&mut reg, None);
    assert_eq!(a.slot, b.slot);
    let mut storage: Storage<char> = Storage::new();
    storage.add(&mut reg, a, 'a');
    assert_eq!(storage.get(b), None);
    storage.add(&mut reg, b, 'b');
    assert_eq!(storage.get(a), Some(&'a'));
    assert_eq!(storage.get(b), Some(&'b'));
    assert_eq!(storage.try_remove(&mut reg, a), Some('a'));
    assert!(storage.get_run(first.id()).is_none());
    assert_eq!(storage.get(b), Some(&'b'));
    assert_eq!(storage.get_run(second.id()).unwrap().archetype(), second.id());
}

#[test]
fn components_survive_despawn_and_are_seen_by_the_dependency_counter() {
    let mut reg = LifetimeRegistry::new();
    let mut ids = RandIdGen::new();
    let mut archetype = Archetype::<()>::new(&mut reg, &mut ids, None);
    let entity = archetype.spawn(&mut reg, None);
    let raw = entity.lifetime.raw().unwrap();
    let mut storage: Storage<u8> = Storage::new();
    storage.add(&mut reg, entity, 9);
    assert_eq!(reg.dep_count(raw), 1);

    assert_eq!(archetype.despawn(&mut reg, entity), Ok(()));
    assert_eq!(storage.get(entity), Some(&9));
    assert_eq!(storage.try_remove(&mut reg, entity), Some(9));
    assert_eq!(storage.get(entity), None);
}

#[test]
fn get_or_create_run_makes_an_empty_run_once() {
    let mut reg = LifetimeRegistry::new();
    let mut ids = RandIdGen::new();
    let mut archetype = Archetype::<()>::new(&mut reg, &mut ids, None);
    let entity = archetype.spawn(&mut reg, None);
    let mut storage: Storage<u8> = Storage::new();
    assert_eq!(storage.get_run_view(archetype.id()).max_slot(), 0);
    assert_eq!(storage.get_run_view(archetype.id()).archetype(), archetype.id());
    assert!(storage.get_run_mut(archetype.id()).is_none());

    {
        let run = storage.get_or_create_run(archetype.id());
        assert!(run.is_empty());
        assert_eq!(run.archetype(), archetype.id());
    }
    assert!(storage.get_run(archetype.id()).is_some());
    assert_eq!(storage.try_remove(&mut reg, entity), None);
    assert!(storage.get_run(archetype.id()).is_some());

    storage.add(&mut reg, entity, 1);
    {
        let run = storage.get_or_create_run(archetype.id());
        assert_eq!(run.max_slot(), 1);
        *run.get_mut(entity).unwrap() = 2;
    }
    assert_eq!(storage.get(entity), Some(&2));
    *storage.get_run_mut(archetype.id()).unwrap().get_mut(entity).unwrap() = 3;
    assert_eq!(storage.get(entity), Some(&3));
}

#[test]
fn run_accessors_agree() {
    let mut reg = LifetimeRegistry::new();
    let mut ids = RandIdGen::new();
    let mut archetype = Archetype::<()>::new(&mut reg, &mut ids, None);
    let first = archetype.spawn(&mut reg, None);
    let second = archetype.spawn(&mut reg, None);
    let third = archetype.spawn(&mut reg, None);
    let mut storage: Storage<u32> = Storage::new();
    storage.add(&mut reg, first, 100);
    storage.add(&mut reg, third, 300);

    let run: &StorageRun<u32> = storage.get_run(archetype.id()).unwrap();
    assert_eq!(run.max_slot(), 3);
    assert!(!run.is_empty());
    assert_eq!(run.get(first), Some(&100));
    assert_eq!(run.get(second), None);
    assert!(run.has(third));
    assert!(!run.has(second));
    assert!(run.has_by_idx(0));
    assert!(!run.has_by_idx(1));
    assert!(!run.has_by_idx(9));
    assert_eq!(run.get_slot(third), Some((third.lifetime, &300)));
    assert_eq!(run.get_slot_by_idx(2), Some((third.lifetime, &300)));
    assert_eq!(run.get_slot_by_idx(1), None);
    assert_eq!(run.as_slice().len(), 3);

    let view: StorageRunView<u32> = run.as_ref_view();
    assert_eq!(view.archetype(), archetype.id());
    assert_eq!(view.max_slot(), 3);
    assert_eq!(view.as_slice().len(), 3);
    assert_eq!(view.try_get(first), Some(&100));
    assert_eq!(view.try_get(second), None);
    assert_eq!(*view.get(third), 300);
    assert!(view.has(first));
    assert!(view.has_by_idx(2));
    assert_eq!(view.get_slot(first), Some((first.lifetime, &100)));
    assert_eq!(view.get_slot_by_idx(5), None);

    let empty: StorageRunView<u32> = StorageRunView::new_empty(archetype.id());
    assert_eq!(empty.max_slot(), 0);
    assert!(!empty.has(first));
}

#[test]
fn run_mutable_accessors_reach_the_value() {
    let mut reg = LifetimeRegistry::new();
    let mut ids = RandIdGen::new();
    let mut archetype = Archetype::<()>::new(&mut reg, &mut ids, None);
    let entity = archetype.spawn(&mut reg, None);
    let mut storage: Storage<u32> = Storage::new();
    storage.add(&mut reg, entity, 1);
    let run = storage.get_run_mut(archetype.id()).unwrap();
    {
        let (lifetime, value) = run.get_slot_by_idx_mut(0).unwrap();
        assert_eq!(lifetime, entity.lifetime);
        *value = 2;
    }
    {
        let (lifetime, value) = run.get_slot_mut(entity).unwrap();
        assert_eq!(lifetime, entity.lifetime);
        *value += 1;
    }
    assert!(run.get_slot_by_idx_mut(1).is_none());
    assert_eq!(storage.get(entity), Some(&3));
}

#[test]
fn slots_come_apart() {
    let mut reg = LifetimeRegistry::new();
    let mut ids = RandIdGen::new();
    let mut archetype = Archetype::<()>::new(&mut reg, &mut ids, None);
    let entity = archetype.spawn(&mut reg, None);
    let raw = entity.lifetime.raw().unwrap();

    let dependent = geode::lifetime::Dependent::new(&mut reg, entity.lifetime);
    let mut slot = StorageSlot::Full { lifetime: dependent, value: 5u32 };
    assert!(slot.is_full());
    *slot.value_mut().unwrap() = 6;
    {
        let (lifetime, value) = slot.pair_mut().unwrap();
        assert_eq!(lifetime, entity.lifetime);
        *value += 1;
    }
    assert_eq!(reg.dep_count(raw), 1);
    assert_eq!(slot.into_pair(&mut reg), Some((entity.lifetime, 7)));
    assert_eq!(reg.dep_count(raw), 0);

    let dependent = geode::lifetime::Dependent::new(&mut reg, entity.lifetime);
    let slot = StorageSlot::Full { lifetime: dependent, value: 'x' };
    assert_eq!(slot.into_value(&mut reg), Some('x'));
    assert_eq!(reg.dep_count(raw), 0);

    let mut empty: StorageSlot<u32> = StorageSlot::Empty;
    assert!(!empty.is_full());
    assert_eq!(empty.value(), None);
    assert_eq!(empty.pair(), None);
    assert!(empty.value_mut().is_none());
    assert!(empty.pair_mut().is_none());
    assert_eq!(empty.into_value(&mut reg), None);
}

#[test]
fn single_bundle_attaches_and_detaches() {
    let mut reg = LifetimeRegistry::new();
    let mut ids = RandIdGen::new();
    let mut archetype = Archetype::<()>::new(&mut reg, &mut ids, None);
    let entity = archetype.spawn(&mut reg, None);
    let mut storage: Storage<u64> = Storage::new();
    SingleBundle(11u64).attach(&mut storage, &mut reg, entity);
    assert_eq!(storage.get(entity), Some(&11));
    let bundle = SingleBundle::detach(&mut storage, &mut reg, entity);
    assert_eq!(bundle.0, 11);
    assert!(!storage.has(entity));
}

#[test]
fn try_remove_many_removes_each_component() {
    let mut reg = LifetimeRegistry::new();
    let mut ids = RandIdGen::new();
    let mut archetype = Archetype::<()>::new(&mut reg, &mut ids, None);
    let entities: Vec<Entity> = (0..4).map(|_| archetype.spawn(&mut reg, None)).collect();
    let mut storage: Storage<u32> = Storage::new();
    for (value, entity) in entities.iter().enumerate() {
        storage.add(&mut reg, *entity, value as u32);
    }
    storage.try_remove_many(&mut reg, &[entities[1], entities[3], entities[1]]);
    assert_eq!(storage.get(entities[0]), Some(&0));
    assert_eq!(storage.get(entities[1]), None);
    assert_eq!(storage.get(entities[2]), Some(&2));
    assert_eq!(storage.get(entities[3]), None);
    assert_eq!(reg.dep_count(entities[1].lifetime.raw().unwrap()), 0);
    assert_eq!(reg.dep_count(entities[2].lifetime.raw().unwrap()), 1);
    assert_eq!(storage.get_run_slice(archetype.id()).len(), 3);
    storage.try_remove_many(&mut reg, &[]);
    assert_eq!(storage.get_run_slice(archetype.id()).len(), 3);
}

#[test]
fn clear_drops_every_run_and_releases_every_dependent() {
    let mut reg = LifetimeRegistry::new();
    let mut ids = RandIdGen::new();
    let mut first = Archetype::<()>::new(&mut reg, &mut ids, None);
    let mut second = Archetype::<()>::new(&mut reg, &mut ids, None);
    let a = first.spawn(&mut reg, None);
    let b = first.spawn(&mut reg, None);
    let c = second.spawn(&mut reg, None);
    let mut storage: Storage<u32> = Storage::new();
    let mut other: Storage<u32> = Storage::new();
    storage.add(&mut reg, a, 1);
    storage.add(&mut reg, b, 2);
    storage.add(&mut reg, c, 3);
    other.add(&mut reg, a, 10);
    assert_eq!(reg.dep_count(a.lifetime.raw().unwrap()), 2);

    let mut numbers = storage.archetype_numbers();
    numbers.sort();
    let mut expected = vec![first.id().id, second.id().id];
    expected.sort();
    assert_eq!(numbers, expected);

    storage.clear(&mut reg);
    assert!(storage.archetype_numbers().is_empty());
    assert_eq!(storage.get(a), None);
    assert_eq!(storage.get(c), None);
    assert!(storage.get_run(first.id()).is_none());
    assert_eq!(reg.dep_count(a.lifetime.raw().unwrap()), 1);
    assert_eq!(reg.dep_count(b.lifetime.raw().unwrap()), 0);
    assert_eq!(reg.dep_count(c.lifetime.raw().unwrap()), 0);
    assert_eq!(other.get(a), Some(&10));
    storage.clear(&mut reg);
    assert_eq!(reg.dep_count(a.lifetime.raw().unwrap()), 1);
}

#[test]
fn storage_says_what_it_takes() {
    let mut reg = LifetimeRegistry::new();
    let mut ids = RandIdGen::new();
    let mut archetype = Archetype::<()>::new(&mut reg, &mut ids, None);
    let entity = archetype.spawn(&mut reg, None);
    let raw = entity.lifetime.raw().unwrap();
    let mut storage: Storage<u32> = Storage::new();
    assert!(storage.can_insert(&reg, entity));
    assert!(storage.can_remove(&reg, entity));
    let mut last = entity;
    last.slot = u32::MAX;
    assert!(!storage.can_insert(&reg, last));

    storage.add(&mut reg, entity, 1);
    assert!(storage.can_insert(&reg, entity));
    assert!(storage.can_remove(&reg, entity));

    raw.dec_dep(&mut reg);
    assert!(!storage.can_remove(&reg, entity));
    assert!(storage.can_insert(&reg, entity));
    let mut other = entity;
    other.lifetime = geode::lifetime::DebugLifetime::new(&mut reg, None);
    assert!(!storage.can_insert(&reg, other));
    raw.inc_dep(&mut reg);
    assert!(storage.can_insert(&reg, other));
    assert!(storage.can_remove(&reg, other));

    assert_eq!(archetype.despawn(&mut reg, entity), Ok(()));
    assert!(storage.can_remove(&reg, entity));
    assert!(storage.can_insert(&reg, other));
}

#[test]
fn default_storage_is_empty() {
    let storage: Storage<u8> = Storage::default();
    assert!(storage.archetype_numbers().is_empty());
    let slot: StorageSlot<u8> = StorageSlot::default();
    assert!(!slot.is_full());
}

#[test]
fn mutable_slices_reach_the_slots_of_a_run() {
    let mut reg = LifetimeRegistry::new();
    let mut ids = RandIdGen::new();
    let mut archetype = Archetype::<()>::new(&mut reg, &mut ids, None);
    let mut other = Archetype::<()>::new(&mut reg, &mut ids, None);
    let first = archetype.spawn(&mut reg, None);
    let second = archetype.spawn(&mut reg, None);
    let mut storage: Storage<u32> = Storage::new();
    storage.add(&mut reg, first, 1);
    storage.add(&mut reg, second, 2);

    {
        let slots = storage.get_run_slice_mut(archetype.id());
        assert_eq!(slots.len(), 2);
        if let Some(value) = slots[1].value_mut() {
            *value = 20;
        }
    }
    assert_eq!(storage.get(second), Some(&20));
    assert_eq!(storage.get(first), Some(&1));
    assert!(storage.get_run_slice_mut(other.id()).is_empty());
    assert!(storage.get_run(other.id()).is_none());

    {
        let run = storage.get_run_mut(archetype.id()).unwrap();
        let slots = run.as_mut_slice();
        *slots[0].value_mut().unwrap() = 10;
    }
    assert_eq!(storage.get(first), Some(&10));
    let _ = other.spawn(&mut reg, None);
}

#[test]
fn archetype_spawns_with_a_bundle_and_extracts_it() {
    let mut reg = LifetimeRegistry::new();
    let mut ids = RandIdGen::new();
    let mut archetype = Archetype::<SingleBundle<String>>::new(&mut reg, &mut ids, None);
    let mut storage: Storage<String> = Storage::new();

    let first =
        archetype.spawn_with(&mut reg, &mut storage, None, SingleBundle("first".to_string()));
    let second =
        archetype.spawn_with(&mut reg, &mut storage, None, SingleBundle("second".to_string()));
    assert_eq!(first.slot, 0);
    assert_eq!(second.slot, 1);
    assert_eq!(storage.get(first), Some(&"first".to_string()));
    assert_eq!(storage.get(second), Some(&"second".to_string()));

    let bundle = archetype.despawn_and_extract(&mut reg, &mut storage, first);
    assert_eq!(bundle.0, "first");
    assert!(!storage.has(first));
    assert!(geode::lifetime::DebugLifetimeWrapper::is_condemned(first, &reg));
    assert!(geode::lifetime::DebugLifetimeWrapper::is_possibly_alive(second, &reg));

    let third =
        archetype.spawn_with(&mut reg, &mut storage, None, SingleBundle("third".to_string()));
    assert_eq!(third.slot, 0);
    assert_eq!(storage.get(third), Some(&"third".to_string()));
}
