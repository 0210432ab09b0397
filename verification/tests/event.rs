use geode::entity::Archetype;
use geode::event::EntityDestroyEvent;
use geode::event::EventQueue;
use geode::event::TaskQueue;
use geode::lifetime::LifetimeRegistry;
use geode::rand_id::RandIdGen;

#[test]
fn task_queue_runs_new_tasks_in_push_order() {
    let mut queue: TaskQueue<u32> = TaskQueue::new();
    assert!(queue.is_empty());
    assert_eq!(queue.next_task(), None);
    queue.push(1u32);
    queue.push(2u32);
    queue.push(3u32);
    assert!(!queue.is_empty());
    assert_eq!(queue.queued_len(), 3);
    assert_eq!(queue.stacked_len(), 0);
    assert_eq!(queue.next_task(), Some(1));
    assert_eq!(queue.next_task(), Some(2));
    assert_eq!(queue.next_task(), Some(3));
    assert_eq!(queue.next_task(), None);
}

#[test]
fn task_queue_runs_new_tasks_before_waiting_ones() {
    let mut queue: TaskQueue<&str> = TaskQueue::new();
    queue.push("a");
    queue.push("b");
    queue.push("c");
    assert_eq!(queue.next_task(), Some("a"));
    queue.push_task("a1");
    queue.push_task("a2");
    assert_eq!(queue.next_task(), Some("a1"));
    assert_eq!(queue.next_task(), Some("a2"));
    assert_eq!(queue.next_task(), Some("b"));
    queue.push("b1");
    assert_eq!(queue.queued_len(), 1);
    assert_eq!(queue.stacked_len(), 1);
    assert_eq!(queue.next_task(), Some("b1"));
    assert_eq!(queue.next_task(), Some("c"));
    assert_eq!(queue.next_task(), None);
}

#[test]
fn task_queue_converts_what_is_pushed() {
    let mut queue: TaskQueue<u64> = TaskQueue::new();
    queue.push(7u8);
    queue.push(8u32);
    assert_eq!(queue.next_task(), Some(7u64));
    assert_eq!(queue.next_task(), Some(8u64));
}

#[test]
fn task_queue_clear_capacities_drops_every_task() {
    let mut queue: TaskQueue<u32> = TaskQueue::new();
    queue.push(1u32);
    queue.push(2u32);
    assert_eq!(queue.next_task(), Some(1));
    queue.push(3u32);
    queue.clear_capacities();
    assert!(queue.is_empty());
    assert_eq!(queue.queued_len(), 0);
    assert_eq!(queue.stacked_len(), 0);
    assert_eq!(queue.next_task(), None);
}

#[test]
fn entity_destroy_event_is_a_unit() {
    let event = EntityDestroyEvent::default();
    let copy = event.clone();
    assert_eq!(format!("{:?}", copy), "EntityDestroyEvent");
}

#[test]
fn event_queue_flushes_the_events_of_one_archetype_in_order() {
    let mut reg = LifetimeRegistry::new();
    let mut ids = RandIdGen::new();
    let mut first = Archetype::<()>::new(&mut reg, &mut ids, None);
    let mut second = Archetype::<()>::new(&mut reg, &mut ids, None);
    let a = first.spawn(&mut reg, None);
    let b = first.spawn(&mut reg, None);
    let c = second.spawn(&mut reg, None);
    let mut queue: EventQueue<&str> = EventQueue::new();
    assert!(queue.is_empty());
    assert!(!queue.has_remaining());
    assert!(!queue.maybe_recursively_dispatched());

    queue.push(&mut reg, a, "a1");
    assert!(queue.maybe_recursively_dispatched());
    assert!(!queue.maybe_recursively_dispatched());
    queue.push(&mut reg, b, "b1");
    assert!(!queue.maybe_recursively_dispatched());
    queue.push(&mut reg, a, "a2");
    queue.push(&mut reg, c, "c1");
    assert!(queue.maybe_recursively_dispatched());
    assert!(queue.has_remaining());
    assert_eq!(reg.dep_count(a.lifetime.raw().unwrap()), 2);
    assert_eq!(reg.dep_count(first.lifetime()), 1);
    assert_eq!(reg.dep_count(second.lifetime()), 1);

    let flushed = queue.flush_in(&mut reg, first.id());
    assert_eq!(flushed, vec![(a, "a1"), (b, "b1"), (a, "a2")]);
    assert_eq!(reg.dep_count(a.lifetime.raw().unwrap()), 0);
    assert_eq!(reg.dep_count(b.lifetime.raw().unwrap()), 0);
    assert_eq!(reg.dep_count(first.lifetime()), 0);
    assert_eq!(reg.dep_count(second.lifetime()), 1);
    assert!(queue.flush_in(&mut reg, first.id()).is_empty());
    assert!(queue.has_remaining());
    assert_eq!(queue.archetype_numbers(), vec![second.id().id]);

    assert_eq!(queue.flush_in(&mut reg, second.id()), vec![(c, "c1")]);
    assert!(queue.is_empty());
    assert_eq!(reg.dep_count(second.lifetime()), 0);
}

#[test]
fn event_queue_flushes_every_archetype() {
    let mut reg = LifetimeRegistry::new();
    let mut ids = RandIdGen::new();
    let mut first = Archetype::<()>::new(&mut reg, &mut ids, None);
    let mut second = Archetype::<()>::new(&mut reg, &mut ids, None);
    let a = first.spawn(&mut reg, None);
    let b = second.spawn(&mut reg, None);
    let mut queue: EventQueue<u32> = EventQueue::new();
    queue.push(&mut reg, a, 1);
    queue.push(&mut reg, b, 2);
    queue.push(&mut reg, a, 3);

    let mut flushed = queue.flush_all(&mut reg);
    assert_eq!(flushed.len(), 2);
    flushed.sort_by_key(|run| run.1.len());
    assert_eq!(flushed[0], (second.id(), vec![(b, 2)]));
    assert_eq!(flushed[1], (first.id(), vec![(a, 1), (a, 3)]));
    assert!(queue.is_empty());
    assert_eq!(reg.dep_count(a.lifetime.raw().unwrap()), 0);
    assert_eq!(reg.dep_count(b.lifetime.raw().unwrap()), 0);
    assert_eq!(reg.dep_count(first.lifetime()), 0);
    assert_eq!(reg.dep_count(second.lifetime()), 0);
    assert!(queue.flush_all(&mut reg).is_empty());
}
