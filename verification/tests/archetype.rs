use geode::entity::Archetype;
use geode::entity::DespawnError;
use geode::lifetime::DebugLifetimeWrapper;
use geode::lifetime::LifetimeRegistry;
use geode::rand_id::RandIdGen;

fn label(text: &str) -> Option<String> {
    Some(text.to_string())
}

#[test]
fn end_to_end_scenario() {
    let mut reg = LifetimeRegistry::new();
    let mut ids = RandIdGen::new();
    let mut archetype_1 = Archetype::<()>::new(&mut reg, &mut ids, label("Archetype 1"));
    let mut archetype_2 = Archetype::<()>::new(&mut reg, &mut ids, label("Archetype 2"));

    let entity_1 = archetype_1.spawn(&mut reg, label("Entity 1"));
    let entity_2 = archetype_1.spawn(&mut reg, label("Entity 2"));
    assert_eq!(entity_1.slot, 0);
    assert_eq!(entity_2.slot, 1);

    let entity_3 = archetype_2.spawn(&mut reg, label("Entity 3"));
    let entity_4 = archetype_2.spawn(&mut reg, label("Entity 4"));
    assert_eq!(entity_3.slot, 0);
    assert_eq!(entity_4.slot, 1);

    assert_eq!(archetype_1.despawn(&mut reg, entity_1), Ok(()));

    let entity_5 = archetype_1.spawn(&mut reg, label("Entity 5"));
    assert_eq!(entity_5.slot, 0);
    let entity_6 = archetype_1.spawn(&mut reg, label("Entity 6"));
    assert_eq!(entity_6.slot, 2);

    assert!(entity_1.is_condemned(&reg));
    assert!(entity_2.is_possibly_alive(&reg));
    assert!(entity_3.is_possibly_alive(&reg));
    assert!(entity_4.is_possibly_alive(&reg));
    assert!(entity_5.is_possibly_alive(&reg));
    assert!(entity_6.is_possibly_alive(&reg));

    assert_eq!(archetype_2.despawn(&mut reg, entity_3), Ok(()));
    let entity_7 = archetype_2.spawn(&mut reg, label("Entity 7"));
    assert_eq!(entity_7.slot, 0);
    assert!(entity_3.is_condemned(&reg));
    assert!(entity_7.is_possibly_alive(&reg));
}

#[test]
fn despawn_refuses_foreign_dead_and_unknown_entities() {
    let mut reg = LifetimeRegistry::new();
    let mut ids = RandIdGen::new();
    let mut first = Archetype::<()>::new(&mut reg, &mut ids, None);
    let mut second = Archetype::<()>::new(&mut reg, &mut ids, None);
    assert_ne!(first.id(), second.id());
    assert_ne!(first.id().id, second.id().id);

    let entity = first.spawn(&mut reg, None);
    assert_eq!(second.despawn(&mut reg, entity), Err(DespawnError::WrongArchetype));
    assert!(entity.is_possibly_alive(&reg));
    assert_eq!(second.slot_count(), 0);

    assert_eq!(first.despawn(&mut reg, entity), Ok(()));
    assert_eq!(first.despawn(&mut reg, entity), Err(DespawnError::DeadEntity));

    let other = first.spawn(&mut reg, None);
    let mut forged = other;
    forged.slot = 7;
    assert_eq!(first.despawn(&mut reg, forged), Err(DespawnError::UnknownSlot));
    assert!(other.is_possibly_alive(&reg));
}

#[test]
fn freed_slots_are_reused_before_the_table_grows() {
    let mut reg = LifetimeRegistry::new();
    let mut ids = RandIdGen::new();
    let mut archetype = Archetype::<()>::new(&mut reg, &mut ids, None);
    let mut entities = Vec::new();
    for slot in 0..10u32 {
        let entity = archetype.spawn(&mut reg, None);
        assert_eq!(entity.slot, slot);
        assert_eq!(entity.archetype, archetype.id());
        entities.push(entity);
    }
    assert_eq!(archetype.despawn(&mut reg, entities[4]), Ok(()));
    let reused = archetype.spawn(&mut reg, None);
    assert_eq!(reused.slot, 4);
    assert_eq!(archetype.slot_count(), 10);
    assert_ne!(reused, entities[4]);
    assert_ne!(reused.lifetime, entities[4].lifetime);

    assert_eq!(archetype.despawn(&mut reg, entities[2]), Ok(()));
    assert_eq!(archetype.despawn(&mut reg, entities[7]), Ok(()));
    let first = archetype.spawn(&mut reg, None);
    let second = archetype.spawn(&mut reg, None);
    assert!(first.slot == 2 || first.slot == 7);
    assert!(second.slot == 2 || second.slot == 7);
    assert_ne!(first.slot, second.slot);
    assert_eq!(archetype.spawn(&mut reg, None).slot, 10);
    assert!(!archetype.is_full());
}

#[test]
fn despawn_leaves_other_entities_alive() {
    let mut reg = LifetimeRegistry::new();
    let mut ids = RandIdGen::new();
    let mut archetype = Archetype::<()>::new(&mut reg, &mut ids, None);
    let kept = archetype.spawn(&mut reg, None);
    let gone = archetype.spawn(&mut reg, None);
    assert_eq!(archetype.despawn(&mut reg, gone), Ok(()));
    assert!(kept.is_possibly_alive(&reg));
    assert!(gone.is_condemned(&reg));
    assert!(archetype.lifetime().is_alive(&reg));
}

#[test]
fn stale_entity_is_refused_after_its_slot_is_reused() {
    let mut reg = LifetimeRegistry::new();
    let mut ids = RandIdGen::new();
    let mut archetype = Archetype::<()>::new(&mut reg, &mut ids, None);
    let stale = archetype.spawn(&mut reg, None);
    assert_eq!(archetype.despawn(&mut reg, stale), Ok(()));
    let fresh = archetype.spawn(&mut reg, None);
    assert_eq!(fresh.slot, stale.slot);
    assert_eq!(archetype.despawn(&mut reg, stale), Err(DespawnError::DeadEntity));
    assert!(fresh.is_possibly_alive(&reg));
}

#[test]
fn archetype_identities_carry_number_and_lifetime() {
    let mut reg = LifetimeRegistry::new();
    let mut ids = RandIdGen::new();
    let archetype = Archetype::<()>::new(&mut reg, &mut ids, Some("Archetype".to_string()));
    let id = archetype.id();
    let weak = archetype.weak_id();
    assert_ne!(id.id, 0);
    assert!(ids.is_used(id.id));
    assert_eq!(weak.id, id.id);
    assert_eq!(weak.lifetime, archetype.lifetime());
    assert_eq!(weak.as_regular(), id);
    assert_eq!(weak.try_as_regular(&reg), Some(id));
    assert!(weak.is_alive(&reg));
    assert_eq!(weak.filter_alive(&reg), Some(weak));
    assert!(id.is_possibly_alive(&reg));
    assert_eq!(archetype.lifetime().debug_name(&reg), "Archetype");
}

#[test]
fn destroying_an_archetype_ends_its_entities_and_frees_its_number() {
    let mut reg = LifetimeRegistry::new();
    let mut ids = RandIdGen::new();
    let mut doomed = Archetype::<()>::new(&mut reg, &mut ids, None);
    let mut kept = Archetype::<()>::new(&mut reg, &mut ids, None);
    let a = doomed.spawn(&mut reg, None);
    let b = doomed.spawn(&mut reg, None);
    let c = doomed.spawn(&mut reg, None);
    assert_eq!(doomed.despawn(&mut reg, b), Ok(()));
    let survivor = kept.spawn(&mut reg, None);
    let weak = doomed.weak_id();
    let number = doomed.id().id;

    doomed.destroy(&mut reg, &mut ids);
    assert!(a.is_condemned(&reg));
    assert!(b.is_condemned(&reg));
    assert!(c.is_condemned(&reg));
    assert!(!weak.is_alive(&reg));
    assert_eq!(weak.try_as_regular(&reg), None);
    assert_eq!(weak.filter_alive(&reg), None);
    assert!(!ids.is_used(number));
    assert!(survivor.is_possibly_alive(&reg));
    assert!(kept.lifetime().is_alive(&reg));
    assert!(ids.is_used(kept.id().id));
}

#[test]
fn cast_marker_keeps_the_archetype() {
    let mut reg = LifetimeRegistry::new();
    let mut ids = RandIdGen::new();
    let mut archetype = Archetype::<u8>::new(&mut reg, &mut ids, None);
    let entity = archetype.spawn(&mut reg, None);
    let id = archetype.id();
    let mut retagged: Archetype<str> = archetype.cast_marker();
    assert_eq!(retagged.id(), id);
    assert_eq!(retagged.slot_count(), 1);
    assert_eq!(retagged.despawn(&mut reg, entity), Ok(()));
}

#[test]
fn single_entity_tags_an_entity() {
    let mut reg = LifetimeRegistry::new();
    let mut ids = RandIdGen::new();
    let mut archetype = Archetype::<()>::new(&mut reg, &mut ids, None);
    let entity = archetype.spawn(&mut reg, None);
    let single = geode::entity::SingleEntity::<u32>::new(entity);
    assert_eq!(single.as_entity(), entity);
    assert_eq!(single.cast::<String>().as_entity(), entity);
    assert_eq!(entity.slot_usize(), 0);
}
