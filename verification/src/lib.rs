//! An entity-component-storage core on generational indices.
//!
//! A `LifetimeRegistry` is a pool of generation-counted slots and the
//! liveness oracle for every handle. An `Archetype` spawns entities, each
//! with a lifetime of its own and a slot in the archetype's table. A
//! `Storage` keeps the components of one type, one run of slots for each
//! archetype, and counts every component as a dependent on the lifetime
//! of its entity.
//!
//! The registry is a value that the caller owns and hands to each
//! operation that asks about a lifetime or changes one. A holder that
//! would release something when it goes out of scope has a method that
//! takes the registry and does so instead.

pub mod entity;
pub mod event;
pub mod exclusivity;
pub mod free_list;
pub mod lifetime;
pub mod no_hash;
pub mod polyfill;
pub mod rand_id;
pub mod storage;
pub mod view;
pub mod weak_map;
