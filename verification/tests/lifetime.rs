use geode::lifetime::DebugLifetime;
use geode::lifetime::DebugLifetimeWrapper;
use geode::lifetime::Dependent;
use geode::lifetime::DestructibleLifetime;
use geode::lifetime::Lifetime;
use geode::lifetime::LifetimeRegistry;
use geode::lifetime::LifetimeWrapper;
use geode::lifetime::OwnedLifetime;
use geode::lifetime::POOL_BLOCK_SIZE;

#[test]
fn new_lifetime_is_alive_and_without_dependents() {
    let mut reg = LifetimeRegistry::new();
    assert_eq!(reg.slot_count(), 0);
    let lifetime = Lifetime::new(&mut reg, Some("first".to_string()));
    assert!(lifetime.is_alive(&reg));
    assert!(!lifetime.is_condemned(&reg));
    assert_eq!(reg.dep_count(lifetime), 0);
    assert_eq!(reg.slot_count(), POOL_BLOCK_SIZE);
}

#[test]
fn registry_grows_by_its_block_size() {
    let mut reg = LifetimeRegistry::with_block_size(2);
    let a = Lifetime::new(&mut reg, None);
    assert_eq!(reg.slot_count(), 2);
    let b = Lifetime::new(&mut reg, None);
    assert_eq!(reg.slot_count(), 2);
    let c = Lifetime::new(&mut reg, None);
    assert_eq!(reg.slot_count(), 4);
    assert_ne!(a, b);
    assert_ne!(a, c);
    assert_ne!(b, c);
    assert!(a.is_alive(&reg) && b.is_alive(&reg) && c.is_alive(&reg));
}

#[test]
fn live_lifetimes_are_pairwise_distinct() {
    let mut reg = LifetimeRegistry::with_block_size(4);
    let mut made: Vec<Lifetime> = Vec::new();
    for _ in 0..50 {
        let next = Lifetime::new(&mut reg, None);
        for earlier in made.iter() {
            assert_ne!(*earlier, next);
        }
        made.push(next);
    }
}

#[test]
fn destroyed_lifetime_stays_dead_when_its_slot_is_reused() {
    let mut reg = LifetimeRegistry::with_block_size(1);
    let old = Lifetime::new(&mut reg, Some("old".to_string()));
    assert!(old.try_destroy(&mut reg));
    assert!(!old.is_alive(&reg));
    assert!(old.is_condemned(&reg));

    let new = Lifetime::new(&mut reg, Some("new".to_string()));
    assert_eq!(reg.slot_count(), 1);
    assert!(new.is_alive(&reg));
    assert!(!old.is_alive(&reg));
    assert_ne!(old, new);
}

#[test]
fn destroy_twice_is_tolerated() {
    let mut reg = LifetimeRegistry::new();
    let lifetime = Lifetime::new(&mut reg, None);
    let other = Lifetime::new(&mut reg, None);
    assert!(lifetime.try_destroy(&mut reg));
    assert!(!lifetime.try_destroy(&mut reg));
    lifetime.destroy(&mut reg);
    assert!(!lifetime.is_alive(&reg));
    assert!(other.is_alive(&reg));
}

#[test]
fn dependency_counter_follows_inc_and_dec() {
    let mut reg = LifetimeRegistry::new();
    let lifetime = Lifetime::new(&mut reg, None);
    assert!(lifetime.try_inc_dep(&mut reg));
    lifetime.inc_dep(&mut reg);
    assert_eq!(reg.dep_count(lifetime), 2);
    lifetime.dec_dep(&mut reg);
    assert_eq!(reg.dep_count(lifetime), 1);
    lifetime.dec_dep(&mut reg);
    assert_eq!(reg.dep_count(lifetime), 0);
}

#[test]
fn dependency_counter_ignores_dead_lifetimes() {
    let mut reg = LifetimeRegistry::with_block_size(1);
    let dead = Lifetime::new(&mut reg, None);
    dead.destroy(&mut reg);
    let reused = Lifetime::new(&mut reg, None);
    assert!(!dead.try_inc_dep(&mut reg));
    dead.inc_dep(&mut reg);
    dead.dec_dep(&mut reg);
    assert_eq!(reg.dep_count(dead), 0);
    assert_eq!(reg.dep_count(reused), 0);
}

#[test]
fn destroy_resets_the_dependency_counter() {
    let mut reg = LifetimeRegistry::with_block_size(1);
    let first = Lifetime::new(&mut reg, None);
    first.inc_dep(&mut reg);
    first.inc_dep(&mut reg);
    first.destroy(&mut reg);
    let second = Lifetime::new(&mut reg, None);
    assert_eq!(reg.dep_count(second), 0);
    assert_eq!(reg.dep_count(first), 0);
}

#[test]
fn dependents_balance_the_counter() {
    let mut reg = LifetimeRegistry::new();
    let lifetime = Lifetime::new(&mut reg, None);
    let mut held: Vec<Dependent<Lifetime>> = Vec::new();
    for n in 1..=7usize {
        held.push(Dependent::new(&mut reg, lifetime));
        assert_eq!(reg.dep_count(lifetime), n);
    }
    let copy = held[0].clone(&mut reg);
    assert_eq!(copy.get(), lifetime);
    assert_eq!(reg.dep_count(lifetime), 8);
    assert_eq!(copy.into_inner(&mut reg), lifetime);
    while let Some(dep) = held.pop() {
        assert_eq!(dep.get(), lifetime);
        assert_eq!(dep.into_inner(&mut reg), lifetime);
    }
    assert_eq!(reg.dep_count(lifetime), 0);
    assert!(lifetime.is_alive(&reg));
}

#[test]
fn dependent_on_dead_lifetime_counts_nothing() {
    let mut reg = LifetimeRegistry::new();
    let lifetime = DebugLifetime::new(&mut reg, None);
    lifetime.destroy(&mut reg);
    let dep = Dependent::new(&mut reg, lifetime);
    assert_eq!(reg.dep_count(lifetime.raw().unwrap()), 0);
    assert_eq!(dep.into_inner(&mut reg), lifetime);
}

#[test]
fn owned_lifetime_destroys_or_defuses() {
    let mut reg = LifetimeRegistry::new();
    let first = Lifetime::new(&mut reg, None);
    let owned = OwnedLifetime::new(first);
    assert_eq!(owned.get(), first);
    owned.destroy(&mut reg);
    assert!(!first.is_alive(&reg));

    let second = Lifetime::new(&mut reg, None);
    let owned = OwnedLifetime::new(second);
    assert_eq!(owned.defuse(), second);
    assert!(second.is_alive(&reg));
}

#[test]
fn debug_lifetime_wraps_a_lifetime() {
    let mut reg = LifetimeRegistry::new();
    assert!(DebugLifetime::IS_ENABLED);
    let raw = Lifetime::new(&mut reg, None);
    let debug = DebugLifetime::from_lifetime(raw);
    assert_eq!(debug.raw(), Some(raw));
    assert!(debug.is_possibly_alive(&reg));
    debug.inc_dep(&mut reg);
    assert_eq!(reg.dep_count(raw), 1);
    debug.dec_dep(&mut reg);
    assert_eq!(reg.dep_count(raw), 0);
    debug.destroy(&mut reg);
    assert!(debug.is_condemned(&reg));
    assert!(!raw.is_alive(&reg));

    let other = DebugLifetime::new(&mut reg, None);
    assert_ne!(other, debug);
    assert_eq!(other, DebugLifetime::from_lifetime(other.raw().unwrap()));
}

#[test]
fn wrapper_traits_agree_with_the_lifetime() {
    let mut reg = LifetimeRegistry::new();
    let lifetime = Lifetime::new(&mut reg, None);
    assert_eq!(Lifetime::as_lifetime(lifetime), lifetime);
    assert_eq!(Lifetime::as_debug_lifetime(lifetime), DebugLifetime::from_lifetime(lifetime));
    assert!(LifetimeWrapper::is_alive(lifetime, &reg));
    assert!(DebugLifetimeWrapper::is_possibly_alive(lifetime, &reg));
    assert_eq!(lifetime.filter_alive(&reg), Some(lifetime));
    DestructibleLifetime::destroy(lifetime, &mut reg);
    assert!(DebugLifetimeWrapper::is_condemned(lifetime, &reg));
    assert_eq!(lifetime.filter_alive(&reg), None);

    let debug = DebugLifetime::new(&mut reg, None);
    assert_eq!(DebugLifetime::as_debug_lifetime(debug), debug);
    DestructibleLifetime::destroy(debug, &mut reg);
    assert!(debug.is_condemned(&reg));
}

#[test]
fn debug_name_follows_the_generation() {
    let mut reg = LifetimeRegistry::with_block_size(1);
    let named = Lifetime::new(&mut reg, Some("Entity 1".to_string()));
    assert_eq!(named.debug_name(&reg), "Entity 1");
    named.destroy(&mut reg);
    assert_eq!(named.debug_name(&reg), "Entity 1");

    let unnamed = Lifetime::new(&mut reg, None);
    assert_eq!(unnamed.debug_name(&reg), "<name unspecified>");
    assert_eq!(named.debug_name(&reg), "Entity 1");
    unnamed.destroy(&mut reg);
    assert_eq!(unnamed.debug_name(&reg), "<name unspecified>");
    assert_eq!(named.debug_name(&reg), "<name unavailable>");

    let empty = LifetimeRegistry::new();
    assert_eq!(named.debug_name(&empty), "<name unavailable>");
    assert!(!named.is_alive(&empty));
}

#[test]
fn registry_says_whether_a_counter_is_in_range() {
    let mut reg = LifetimeRegistry::default();
    let lifetime = Lifetime::new(&mut reg, None);
    assert!(reg.can_inc_dep(lifetime));
    assert!(!reg.can_dec_dep(lifetime));
    lifetime.inc_dep(&mut reg);
    assert!(reg.can_dec_dep(lifetime));
    lifetime.destroy(&mut reg);
    assert!(reg.can_inc_dep(lifetime));
    assert!(reg.can_dec_dep(lifetime));
}

#[test]
fn conversions_wrap_the_lifetime() {
    let mut reg = LifetimeRegistry::new();
    let lifetime = Lifetime::new(&mut reg, None);
    let debug: DebugLifetime = lifetime.into();
    assert_eq!(debug, DebugLifetime::from_lifetime(lifetime));
    let owned: OwnedLifetime<Lifetime> = lifetime.into();
    assert_eq!(owned.get(), lifetime);
    let dependent = geode::lifetime::as_dependent(debug, &mut reg);
    assert_eq!(dependent.get(), debug);
    assert_eq!(reg.dep_count(lifetime), 1);
    assert_eq!(dependent.into_inner(&mut reg), debug);
    assert_eq!(reg.dep_count(lifetime), 0);
}
