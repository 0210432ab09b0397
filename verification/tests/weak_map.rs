use geode::entity::Archetype;
use geode::entity::WeakArchetypeId;
use geode::lifetime::Lifetime;
use geode::lifetime::LifetimeRegistry;
use geode::rand_id::RandIdGen;
use geode::weak_map::WeakArchetypeMap;

#[test]
fn weak_map_files_values_for_live_archetypes() {
    let mut reg = LifetimeRegistry::new();
    let mut ids = RandIdGen::new();
    let first = Archetype::<()>::new(&mut reg, &mut ids, None);
    let second = Archetype::<()>::new(&mut reg, &mut ids, None);
    let mut map: WeakArchetypeMap<u32> = WeakArchetypeMap::new();

    assert_eq!(map.get(&reg, first.weak_id()), None);
    assert_eq!(map.insert(&reg, first.weak_id(), 1), None);
    assert_eq!(map.add(&reg, second.weak_id(), 2), None);
    assert_eq!(map.get(&reg, first.weak_id()), Some(&1));
    assert_eq!(map.get(&reg, second.weak_id()), Some(&2));
    assert!(map.has(&reg, first.weak_id()));
    assert_eq!(map.insert(&reg, first.weak_id(), 10), Some(1));
    *map.get_mut(&reg, first.weak_id()).unwrap() += 1;
    assert_eq!(map.get(&reg, first.weak_id()), Some(&11));
    assert_eq!(map.len(), 2);

    assert_eq!(map.try_remove(&reg, second.weak_id()), Some(2));
    assert_eq!(map.try_remove(&reg, second.weak_id()), None);
    assert!(!map.has(&reg, second.weak_id()));
    map.clear();
    assert_eq!(map.len(), 0);
    assert_eq!(map.get(&reg, first.weak_id()), None);
}

#[test]
fn weak_map_forgets_dead_archetypes() {
    let mut reg = LifetimeRegistry::new();
    let mut ids = RandIdGen::new();
    let doomed = Archetype::<()>::new(&mut reg, &mut ids, None);
    let kept = Archetype::<()>::new(&mut reg, &mut ids, None);
    let doomed_id = doomed.weak_id();
    let mut map: WeakArchetypeMap<&str> = WeakArchetypeMap::new();
    map.insert(&reg, doomed_id, "doomed");
    map.insert(&reg, kept.weak_id(), "kept");

    doomed.destroy(&mut reg, &mut ids);
    assert_eq!(map.get(&reg, doomed_id), None);
    assert!(map.get_mut(&reg, doomed_id).is_none());
    assert!(!map.has(&reg, doomed_id));
    assert_eq!(map.insert(&reg, doomed_id, "late"), None);
    assert_eq!(map.try_remove(&reg, doomed_id), None);
    assert_eq!(map.len(), 2);

    map.gc(&reg);
    assert_eq!(map.len(), 1);
    assert_eq!(map.get(&reg, kept.weak_id()), Some(&"kept"));
}

#[test]
fn weak_map_tells_archetypes_with_one_number_apart() {
    let mut reg = LifetimeRegistry::new();
    let old = WeakArchetypeId { lifetime: Lifetime::new(&mut reg, None), id: 5 };
    let new = WeakArchetypeId { lifetime: Lifetime::new(&mut reg, None), id: 5 };
    let mut map: WeakArchetypeMap<u32> = WeakArchetypeMap::new();
    assert_eq!(map.insert(&reg, old, 1), None);
    assert_eq!(map.get(&reg, new), None);
    assert!(map.get_mut(&reg, new).is_none());
    assert_eq!(map.insert(&reg, new, 2), None);
    assert_eq!(map.get(&reg, old), None);
    assert_eq!(map.get(&reg, new), Some(&2));
    assert_eq!(map.try_remove(&reg, old), None);
    assert_eq!(map.get(&reg, new), None);
}

#[test]
fn weak_map_lists_the_entries_of_live_archetypes() {
    let mut reg = LifetimeRegistry::new();
    let mut ids = RandIdGen::new();
    let first = Archetype::<()>::new(&mut reg, &mut ids, None);
    let second = Archetype::<()>::new(&mut reg, &mut ids, None);
    let doomed = Archetype::<()>::new(&mut reg, &mut ids, None);
    let mut map: WeakArchetypeMap<u32> = WeakArchetypeMap::new();
    map.insert(&reg, first.weak_id(), 1);
    map.insert(&reg, second.weak_id(), 2);
    map.insert(&reg, doomed.weak_id(), 3);
    doomed.destroy(&mut reg, &mut ids);

    let mut listed: Vec<(u32, u32)> =
        map.iter(&reg).into_iter().map(|(id, value)| (id.id, *value)).collect();
    listed.sort();
    let mut expected = vec![(first.weak_id().id, 1), (second.weak_id().id, 2)];
    expected.sort();
    assert_eq!(listed, expected);

    let keys = map.keys(&reg);
    assert_eq!(keys.len(), 2);
    assert!(keys.contains(&first.weak_id()));
    assert!(keys.contains(&second.weak_id()));
    let mut values: Vec<u32> = map.values(&reg).into_iter().map(|value| *value).collect();
    values.sort();
    assert_eq!(values, vec![1, 2]);
}
