use crate::entity::ArchetypeId;
use crate::entity::Entity;
use crate::lifetime::DebugLifetime;
use crate::lifetime::Dependent;
use crate::lifetime::LifetimeRegistry;
use crate::lifetime::RegistryState;
use std::collections::hash_map::Entry;
use std::collections::HashMap;
use vstd::prelude::*;
use vstd::std_specs::convert::IntoSpec;
use vstd::std_specs::hash::spec_keys_iter;
use vstd::std_specs::iter::IteratorSpec;

verus! {

broadcast use vstd::std_specs::hash::group_hash_axioms;

/// The event that an entity is to be destroyed.
#[derive(Debug, Clone, Default)]
pub struct EntityDestroyEvent;

/// Tasks waiting to be run. The tasks pushed since the last call of
/// `next_task` run in the order in which they were pushed, and before
/// every task that was waiting already.
#[derive(Debug)]
pub struct TaskQueue<T> {
    task_stack: Vec<T>,
    tasks_to_add: Vec<T>,
}

impl<T> TaskQueue<T> {
    /// The tasks pushed since the last call of `next_task`, oldest first.
    pub closed spec fn queued(&self) -> Seq<T> {
        self.tasks_to_add@
    }

    /// The tasks that were waiting at the last call of `next_task` and
    /// have not run since, the next one to run first.
    pub closed spec fn stacked(&self) -> Seq<T> {
        self.task_stack@.reverse()
    }

    /// All tasks in the order in which `next_task` hands them out, if
    /// nothing is pushed in between.
    pub open spec fn pending(&self) -> Seq<T> {
        self.queued() + self.stacked()
    }

    pub fn new() -> (queue: Self)
        ensures
            queue.queued() == Seq::<T>::empty(),
            queue.stacked() == Seq::<T>::empty(),
    {
        let queue = TaskQueue { task_stack: Vec::new(), tasks_to_add: Vec::new() };
        assert(queue.stacked() =~= Seq::<T>::empty());
        queue
    }

    /// Adds `task`, converted to a task, behind the tasks pushed since the
    /// last call of `next_task`.
    pub fn push<I: Into<T>>(&mut self, task: I)
        ensures
            final(self).queued().len() == old(self).queued().len() + 1,
            final(self).queued().drop_last() == old(self).queued(),
            I::obeys_into_spec() ==> final(self).queued().last() == task.into_spec(),
            final(self).stacked() == old(self).stacked(),
    {
        self.push_task(task.into());
    }

    /// Adds `task` behind the tasks pushed since the last call of `next_task`.
    pub fn push_task(&mut self, task: T)
        ensures
            final(self).queued() == old(self).queued().push(task),
            final(self).stacked() == old(self).stacked(),
    {
        self.tasks_to_add.push(task);
    }

    /// Takes out the next task to run, if any is waiting. The tasks that
    /// were pushed since the last call join the waiting ones, in front.
    pub fn next_task(&mut self) -> (task: Option<T>)
        ensures
            final(self).queued() == Seq::<T>::empty(),
            old(self).pending().len() == 0 ==> {
                &&& task is None
                &&& final(self).stacked() == Seq::<T>::empty()
            },
            old(self).pending().len() > 0 ==> {
                &&& task == Some(old(self).pending().first())
                &&& final(self).stacked() == old(self).pending().drop_first()
            },
    {
        self.task_stack.reserve(self.tasks_to_add.len());
        loop
            invariant
                self.tasks_to_add@.len() <= old(self).tasks_to_add@.len(),
                self.tasks_to_add@ + self.task_stack@.reverse() == old(self).pending(),
            ensures
                self.tasks_to_add@.len() == 0,
                self.task_stack@.reverse() == old(self).pending(),
            decreases self.tasks_to_add@.len(),
        {
            let ghost queued = self.tasks_to_add@;
            let ghost stack = self.task_stack@;
            match self.tasks_to_add.pop() {
                Some(to_add) => {
                    self.task_stack.push(to_add);
                    assert(self.tasks_to_add@ + self.task_stack@.reverse() =~= queued
                        + stack.reverse());
                },
                None => {
                    assert(self.task_stack@.reverse() =~= queued + stack.reverse());
                    break ;
                },
            }
        }
        let ghost moved = self.task_stack@;
        let task = self.task_stack.pop();
        proof {
            if moved.len() > 0 {
                assert(self.task_stack@.reverse() =~= moved.reverse().drop_first());
            }
            assert(self.queued() =~= Seq::<T>::empty());
        }
        task
    }

    /// Drops every task that is waiting, and the memory that held them.
    pub fn clear_capacities(&mut self)
        ensures
            final(self).queued() == Seq::<T>::empty(),
            final(self).stacked() == Seq::<T>::empty(),
    {
        self.task_stack = Vec::new();
        self.tasks_to_add = Vec::new();
        assert(self.stacked() =~= Seq::<T>::empty());
    }

    /// Whether no task is waiting.
    pub fn is_empty(&self) -> (empty: bool)
        ensures
            empty == (self.pending().len() == 0),
    {
        self.task_stack.len() == 0 && self.tasks_to_add.len() == 0
    }

    /// The number of tasks pushed since the last call of `next_task`.
    pub fn queued_len(&self) -> (n: usize)
        ensures
            n == self.queued().len(),
    {
        self.tasks_to_add.len()
    }

    /// The number of tasks that were waiting at the last call of
    /// `next_task` and have not run since.
    pub fn stacked_len(&self) -> (n: usize)
        ensures
            n == self.stacked().len(),
    {
        self.task_stack.len()
    }
}

/// An event that waits in a queue, for the entity in `slot` of its archetype.
#[derive(Debug)]
struct Event<E> {
    slot: u32,
    lifetime: Dependent<DebugLifetime>,
    event: E,
}

impl<E> View for Event<E> {
    type V = (u32, DebugLifetime, E);

    closed spec fn view(&self) -> (u32, DebugLifetime, E) {
        (self.slot, self.lifetime.inner(), self.event)
    }
}

/// The events of a run as contracts see them: for each the slot and the
/// lifetime of its entity, and the event.
closed spec fn events_view<E>(events: Seq<Event<E>>) -> Seq<(u32, DebugLifetime, E)> {
    Seq::new(events.len(), |i: int| events[i]@)
}

/// The entity of archetype `archetype` that a waiting event is for, and the event.
pub open spec fn event_target<E>(archetype: ArchetypeId, event: (u32, DebugLifetime, E)) -> (
    Entity,
    E,
) {
    (Entity { lifetime: event.1, archetype, slot: event.0 }, event.2)
}

/// The entities of archetype `archetype` that waiting events are for, with the events.
pub open spec fn event_targets<E>(
    archetype: ArchetypeId,
    events: Seq<(u32, DebugLifetime, E)>,
) -> Seq<(Entity, E)> {
    Seq::new(events.len(), |i: int| event_target(archetype, events[i]))
}

/// The registry state after the dependents of the first `n` of `events`
/// were released, one after the other.
pub open spec fn released_events<E>(
    reg: RegistryState,
    events: Seq<(u32, DebugLifetime, E)>,
    n: nat,
) -> RegistryState
    decreases n,
{
    if n == 0 {
        reg
    } else {
        released_events(reg, events, (n - 1) as nat).dec_dep(events[n - 1].1.lifetime())
    }
}

/// Whether the dependents of the first `n` of `events` can be released,
/// one after the other, without a dependency counter going below zero.
pub open spec fn can_release_events<E>(
    reg: RegistryState,
    events: Seq<(u32, DebugLifetime, E)>,
    n: nat,
) -> bool
    decreases n,
{
    n > 0 ==> can_release_events(reg, events, (n - 1) as nat) && released_events(
        reg,
        events,
        (n - 1) as nat,
    ).can_dec_dep(events[n - 1].1.lifetime())
}

/// The registry state after a run was flushed: the dependent on its
/// archetype is released, then those of its events.
pub open spec fn flushed_run<E>(
    reg: RegistryState,
    run: (DebugLifetime, Seq<(u32, DebugLifetime, E)>),
) -> RegistryState {
    released_events(reg.dec_dep(run.0.lifetime()), run.1, run.1.len())
}

/// Whether a run can be flushed without a dependency counter going below zero.
pub open spec fn can_flush_run<E>(
    reg: RegistryState,
    run: (DebugLifetime, Seq<(u32, DebugLifetime, E)>),
) -> bool {
    reg.can_dec_dep(run.0.lifetime()) && can_release_events(
        reg.dec_dep(run.0.lifetime()),
        run.1,
        run.1.len(),
    )
}

proof fn lemma_can_release_prefix<E>(
    reg: RegistryState,
    events: Seq<(u32, DebugLifetime, E)>,
    m: nat,
    n: nat,
)
    requires
        m <= n,
        can_release_events(reg, events, n),
    ensures
        can_release_events(reg, events, m),
    decreases n - m,
{
    if m < n {
        lemma_can_release_prefix(reg, events, m, (n - 1) as nat);
    }
}

/// Events that wait to be handled, by the archetype of the entity that
/// each is for. A waiting event counts as a dependency on its entity, and
/// a run of waiting events as a dependency on its archetype.
pub struct EventQueue<E> {
    runs: HashMap<u32, (Dependent<DebugLifetime>, Vec<Event<E>>)>,
    maybe_recursively_dispatched: bool,
}

impl<E> View for EventQueue<E> {
    type V = Map<u32, (DebugLifetime, Seq<(u32, DebugLifetime, E)>)>;

    /// By archetype number: the lifetime of the archetype and the events
    /// that wait, oldest first.
    closed spec fn view(&self) -> Map<u32, (DebugLifetime, Seq<(u32, DebugLifetime, E)>)> {
        Map::new(
            |id: u32| self.runs@.contains_key(id),
            |id: u32| (self.runs@[id].0.inner(), events_view(self.runs@[id].1@)),
        )
    }
}

impl<E> EventQueue<E> {
    /// Whether a run was made since the flag was last read.
    pub closed spec fn dispatched_flag(&self) -> bool {
        self.maybe_recursively_dispatched
    }

    pub fn new() -> (queue: Self)
        ensures
            queue@ == Map::<u32, (DebugLifetime, Seq<(u32, DebugLifetime, E)>)>::empty(),
            !queue.dispatched_flag(),
    {
        let queue = EventQueue { runs: HashMap::new(), maybe_recursively_dispatched: false };
        assert(queue@ =~= Map::<u32, (DebugLifetime, Seq<(u32, DebugLifetime, E)>)>::empty());
        queue
    }

    /// Queues `event` for `target`, behind the events that wait for the
    /// target's archetype. Where none waits for that archetype a run is
    /// made, with a dependent on the archetype, and the flag is raised.
    pub fn push(&mut self, reg: &mut LifetimeRegistry, target: Entity, event: E)
        requires
            old(reg).wf(),
            !old(self)@.contains_key(target.archetype.id) ==> old(reg)@.can_inc_dep(
                target.archetype.lifetime.lifetime(),
            ),
            (if old(self)@.contains_key(target.archetype.id) {
                old(reg)@
            } else {
                old(reg)@.inc_dep(target.archetype.lifetime.lifetime())
            }).can_inc_dep(target.lifetime.lifetime()),
        ensures
            final(reg).wf(),
            final(reg).block_size_spec() == old(reg).block_size_spec(),
            final(reg)@ == (if old(self)@.contains_key(target.archetype.id) {
                old(reg)@
            } else {
                old(reg)@.inc_dep(target.archetype.lifetime.lifetime())
            }).inc_dep(target.lifetime.lifetime()),
            final(self)@ == old(self)@.insert(
                target.archetype.id,
                if old(self)@.contains_key(target.archetype.id) {
                    (
                        old(self)@[target.archetype.id].0,
                        old(self)@[target.archetype.id].1.push(
                            (target.slot, target.lifetime, event),
                        ),
                    )
                } else {
                    (target.archetype.lifetime, seq![(target.slot, target.lifetime, event)])
                },
            ),
            final(self).dispatched_flag() == (old(self).dispatched_flag()
                || !old(self)@.contains_key(target.archetype.id)),
    {
        let id = target.archetype.id;
        let mut run = match self.runs.remove(&id) {
            Some(run) => run,
            None => {
                self.maybe_recursively_dispatched = true;
                (Dependent::new(reg, target.archetype.lifetime), Vec::new())
            },
        };
        let ghost before = events_view(run.1@);
        proof {
            if old(self)@.contains_key(id) {
                assert(before == old(self)@[id].1);
                assert(run.0.inner() == old(self)@[id].0);
            } else {
                assert(before =~= Seq::<(u32, DebugLifetime, E)>::empty());
                assert(before.push((target.slot, target.lifetime, event))
                    =~= seq![(target.slot, target.lifetime, event)]);
            }
        }
        run.1.push(Event { slot: target.slot, lifetime: Dependent::new(reg, target.lifetime), event });
        assert(events_view(run.1@) =~= before.push((target.slot, target.lifetime, event)));
        let ghost queued = (run.0.inner(), events_view(run.1@));
        let _ = self.runs.insert(id, run);
        assert(self@[id] == queued);
        assert(self@ =~= old(self)@.insert(
            id,
            if old(self)@.contains_key(id) {
                (old(self)@[id].0, old(self)@[id].1.push((target.slot, target.lifetime, event)))
            } else {
                (target.archetype.lifetime, seq![(target.slot, target.lifetime, event)])
            },
        ));
    }

    /// Takes the run of archetype number `id` out of the queue and
    /// releases its dependents.
    fn flush_run(&mut self, reg: &mut LifetimeRegistry, id: u32) -> (run: Option<
        (DebugLifetime, Vec<(u32, DebugLifetime, E)>),
    >)
        requires
            old(reg).wf(),
            old(self)@.contains_key(id) ==> can_flush_run(old(reg)@, old(self)@[id]),
        ensures
            final(reg).wf(),
            final(reg).block_size_spec() == old(reg).block_size_spec(),
            final(self)@ == old(self)@.remove(id),
            final(self).dispatched_flag() == old(self).dispatched_flag(),
            match run {
                Some((lifetime, events)) => {
                    &&& old(self)@.contains_key(id)
                    &&& lifetime == old(self)@[id].0
                    &&& events@ == old(self)@[id].1
                    &&& final(reg)@ == flushed_run(old(reg)@, old(self)@[id])
                },
                None => !old(self)@.contains_key(id) && final(reg)@ == old(reg)@,
            },
    {
        match self.runs.remove(&id) {
            Some((archetype, events)) => {
                assert(self@ =~= old(self)@.remove(id));
                let ghost waiting = events_view(events@);
                let ghost start = reg@.dec_dep(archetype.inner().lifetime());
                let lifetime = archetype.into_inner(reg);
                let mut flushed: Vec<(u32, DebugLifetime, E)> = Vec::new();
                for event in it: events
                    invariant
                        it.seq() == events@,
                        waiting == events_view(events@),
                        can_release_events(start, waiting, waiting.len()),
                        reg.wf(),
                        reg.block_size_spec() == old(reg).block_size_spec(),
                        reg@ == released_events(start, waiting, it.index() as nat),
                        flushed@ == waiting.subrange(0, it.index()),
                {
                    proof {
                        lemma_can_release_prefix(
                            start,
                            waiting,
                            (it.index() + 1) as nat,
                            waiting.len(),
                        );
                        assert(event@ == waiting[it.index()]);
                    }
                    let ghost done = flushed@;
                    let Event { slot, lifetime, event } = event;
                    let lifetime = lifetime.into_inner(reg);
                    flushed.push((slot, lifetime, event));
                    assert(flushed@ =~= waiting.subrange(0, it.index() + 1));
                }
                assert(flushed@ =~= waiting);
                Some((lifetime, flushed))
            },
            None => {
                assert(self@ =~= old(self)@.remove(id));
                None
            },
        }
    }

    /// Takes the events that wait for `archetype` out of the queue and
    /// returns them, oldest first, each with the entity that it is for.
    /// The dependents of the run are released.
    pub fn flush_in(&mut self, reg: &mut LifetimeRegistry, archetype: ArchetypeId) -> (events: Vec<
        (Entity, E),
    >)
        requires
            old(reg).wf(),
            old(self)@.contains_key(archetype.id) ==> can_flush_run(
                old(reg)@,
                old(self)@[archetype.id],
            ),
        ensures
            final(reg).wf(),
            final(reg).block_size_spec() == old(reg).block_size_spec(),
            final(self)@ == old(self)@.remove(archetype.id),
            final(self).dispatched_flag() == old(self).dispatched_flag(),
            old(self)@.contains_key(archetype.id) ==> events@ == event_targets(
                archetype,
                old(self)@[archetype.id].1,
            ) && final(reg)@ == flushed_run(old(reg)@, old(self)@[archetype.id]),
            !old(self)@.contains_key(archetype.id) ==> events@ == Seq::<(Entity, E)>::empty()
                && final(reg)@ == old(reg)@,
    {
        match self.flush_run(reg, archetype.id) {
            Some((_, events)) => into_targets(archetype, events),
            None => Vec::new(),
        }
    }

    /// Reads the flag that says whether a run was made since the last
    /// reading, and lowers it.
    pub fn maybe_recursively_dispatched(&mut self) -> (raised: bool)
        ensures
            raised == old(self).dispatched_flag(),
            !final(self).dispatched_flag(),
            final(self)@ == old(self)@,
    {
        let raised = self.maybe_recursively_dispatched;
        self.maybe_recursively_dispatched = false;
        raised
    }

    /// Whether no event waits.
    pub fn is_empty(&self) -> (empty: bool)
        ensures
            empty == (self@.dom() == Set::<u32>::empty()),
    {
        let empty = self.runs.is_empty();
        proof {
            assert(self@.dom() =~= self.runs@.dom());
            if empty {
                assert(self@.dom() =~= Set::<u32>::empty());
            }
        }
        empty
    }

    pub fn has_remaining(&self) -> (remaining: bool)
        ensures
            remaining == (self@.dom() != Set::<u32>::empty()),
    {
        !self.is_empty()
    }
}

/// Pairs each event with the entity of `archetype` that it is for.
fn into_targets<E>(archetype: ArchetypeId, events: Vec<(u32, DebugLifetime, E)>) -> (targets: Vec<
    (Entity, E),
>)
    ensures
        targets@ == event_targets(archetype, events@),
{
    let mut targets: Vec<(Entity, E)> = Vec::new();
    for event in it: events
        invariant
            it.seq() == events@,
            targets@ == event_targets(archetype, events@).subrange(0, it.index()),
    {
        let (slot, lifetime, event) = event;
        targets.push((Entity { lifetime, archetype, slot }, event));
        assert(targets@ =~= event_targets(archetype, events@).subrange(0, it.index() + 1));
    }
    assert(targets@ =~= event_targets(archetype, events@));
    targets
}


/// Whether `order` lists the archetype numbers of the runs, each once.
pub open spec fn lists_event_runs<E>(
    runs: Map<u32, (DebugLifetime, Seq<(u32, DebugLifetime, E)>)>,
    order: Seq<u32>,
) -> bool {
    order.no_duplicates() && order.to_set() == runs.dom()
}

/// The registry state after the runs of the first `n` archetype numbers
/// in `order` were flushed, one after the other.
pub open spec fn flushed_all<E>(
    runs: Map<u32, (DebugLifetime, Seq<(u32, DebugLifetime, E)>)>,
    reg: RegistryState,
    order: Seq<u32>,
    n: nat,
) -> RegistryState
    decreases n,
{
    if n == 0 {
        reg
    } else {
        flushed_run(flushed_all(runs, reg, order, (n - 1) as nat), runs[order[n - 1]])
    }
}

/// Whether the runs of the first `n` archetype numbers in `order` can be
/// flushed, one after the other, without a dependency counter going below zero.
pub open spec fn can_flush_all<E>(
    runs: Map<u32, (DebugLifetime, Seq<(u32, DebugLifetime, E)>)>,
    reg: RegistryState,
    order: Seq<u32>,
    n: nat,
) -> bool
    decreases n,
{
    n > 0 ==> can_flush_all(runs, reg, order, (n - 1) as nat) && can_flush_run(
        flushed_all(runs, reg, order, (n - 1) as nat),
        runs[order[n - 1]],
    )
}

/// The archetype that the run of archetype number `id` waits for.
pub open spec fn run_archetype<E>(
    runs: Map<u32, (DebugLifetime, Seq<(u32, DebugLifetime, E)>)>,
    id: u32,
) -> ArchetypeId {
    ArchetypeId { lifetime: runs[id].0, id }
}

proof fn lemma_can_flush_prefix<E>(
    runs: Map<u32, (DebugLifetime, Seq<(u32, DebugLifetime, E)>)>,
    reg: RegistryState,
    order: Seq<u32>,
    m: nat,
    n: nat,
)
    requires
        m <= n,
        can_flush_all(runs, reg, order, n),
    ensures
        can_flush_all(runs, reg, order, m),
    decreases n - m,
{
    if m < n {
        lemma_can_flush_prefix(runs, reg, order, m, (n - 1) as nat);
    }
}

impl<E> EventQueue<E> {
    /// The archetype numbers of the runs, each once, in no particular order.
    pub fn archetype_numbers(&self) -> (numbers: Vec<u32>)
        ensures
            lists_event_runs(self@, numbers@),
    {
        let mut numbers: Vec<u32> = Vec::new();
        for number in it: self.runs.keys()
            invariant
                numbers@.len() == it.index(),
                forall|j: int| 0 <= j < numbers@.len() ==> numbers@[j] == *it.seq()[j],
                it.seq() == spec_keys_iter(&self.runs).remaining(),
        {
            numbers.push(*number);
        }
        proof {
            assert(numbers@ =~= spec_keys_iter(&self.runs).remaining().unref());
            assert(self@.dom() =~= self.runs@.dom());
        }
        numbers
    }

    /// Takes every run out of the queue and returns them, in the order in
    /// which the map of runs is walked: for each run its archetype and
    /// its events, oldest first, each with the entity that it is for. The
    /// dependents of the runs are released.
    pub fn flush_all(&mut self, reg: &mut LifetimeRegistry) -> (flushed: Vec<
        (ArchetypeId, Vec<(Entity, E)>),
    >)
        requires
            old(reg).wf(),
            forall|order: Seq<u32>|
                lists_event_runs(old(self)@, order) ==> #[trigger] can_flush_all(
                    old(self)@,
                    old(reg)@,
                    order,
                    order.len(),
                ),
        ensures
            final(reg).wf(),
            final(reg).block_size_spec() == old(reg).block_size_spec(),
            final(self)@ == Map::<u32, (DebugLifetime, Seq<(u32, DebugLifetime, E)>)>::empty(),
            final(self).dispatched_flag() == old(self).dispatched_flag(),
            exists|order: Seq<u32>|
                {
                    &&& lists_event_runs(old(self)@, order)
                    &&& final(reg)@ == #[trigger] flushed_all(
                        old(self)@,
                        old(reg)@,
                        order,
                        order.len(),
                    )
                    &&& flushed@.len() == order.len()
                    &&& forall|i: int|
                        0 <= i < order.len() ==> (#[trigger] flushed@[i]).0 == run_archetype(
                            old(self)@,
                            order[i],
                        ) && flushed@[i].1@ == event_targets(
                            run_archetype(old(self)@, order[i]),
                            old(self)@[order[i]].1,
                        )
                },
    {
        let numbers = self.archetype_numbers();
        let ghost order = numbers@;
        assert(can_flush_all(old(self)@, old(reg)@, order, order.len()));
        let mut flushed: Vec<(ArchetypeId, Vec<(Entity, E)>)> = Vec::new();
        let mut done: usize = 0;
        while done < numbers.len()
            invariant
                done <= numbers@.len(),
                numbers@ == order,
                lists_event_runs(old(self)@, order),
                can_flush_all(old(self)@, old(reg)@, order, order.len()),
                self.dispatched_flag() == old(self).dispatched_flag(),
                reg.wf(),
                reg.block_size_spec() == old(reg).block_size_spec(),
                reg@ == flushed_all(old(self)@, old(reg)@, order, done as nat),
                self@ == old(self)@.remove_keys(order.subrange(0, done as int).to_set()),
                flushed@.len() == done,
                forall|i: int|
                    0 <= i < done ==> (#[trigger] flushed@[i]).0 == run_archetype(
                        old(self)@,
                        order[i],
                    ) && flushed@[i].1@ == event_targets(
                        run_archetype(old(self)@, order[i]),
                        old(self)@[order[i]].1,
                    ),
            decreases numbers@.len() - done,
        {
            let number = numbers[done];
            proof {
                lemma_can_flush_prefix(
                    old(self)@,
                    old(reg)@,
                    order,
                    (done + 1) as nat,
                    order.len(),
                );
                assert(order[done as int] == number);
                assert(order.to_set().contains(number));
                assert(!order.subrange(0, done as int).to_set().contains(number));
                assert(self@.contains_key(number));
                assert(self@[number] == old(self)@[number]);
            }
            let ghost before = self@;
            let ghost collected = flushed@;
            match self.flush_run(reg, number) {
                Some((lifetime, events)) => {
                    let archetype = ArchetypeId { lifetime, id: number };
                    flushed.push((archetype, into_targets(archetype, events)));
                },
                None => {
                    assert(false);
                },
            }
            done = done + 1;
            proof {
                let shorter = order.subrange(0, done as int - 1);
                let longer = order.subrange(0, done as int);
                assert(longer =~= shorter.push(number));
                assert(longer.to_set() =~= shorter.to_set().insert(number)) by {
                    assert forall|id: u32| longer.to_set().contains(id) <==> shorter.to_set().insert(
                        number,
                    ).contains(id) by {
                        if shorter.contains(id) {
                            let j = choose|j: int| 0 <= j < shorter.len() && shorter[j] == id;
                            assert(longer[j] == id);
                        }
                        if longer.contains(id) && id != number {
                            let j = choose|j: int| 0 <= j < longer.len() && longer[j] == id;
                            assert(shorter[j] == id);
                        }
                        if id == number {
                            assert(longer[done as int - 1] == number);
                        }
                    }
                }
                assert(self@ =~= before.remove(number));
                assert(self@ =~= old(self)@.remove_keys(longer.to_set()));
                assert forall|i: int| 0 <= i < done implies (#[trigger] flushed@[i]).0
                    == run_archetype(old(self)@, order[i]) && flushed@[i].1@ == event_targets(
                    run_archetype(old(self)@, order[i]),
                    old(self)@[order[i]].1,
                ) by {
                    if i < done - 1 {
                        assert(flushed@[i] == collected[i]);
                    }
                }
            }
        }
        proof {
            assert(order.subrange(0, done as int) =~= order);
            assert(self@ =~= Map::<u32, (DebugLifetime, Seq<(u32, DebugLifetime, E)>)>::empty());
        }
        flushed
    }
}


impl<T> Default for TaskQueue<T> {
    fn default() -> (queue: Self)
        ensures
            queue.queued() == Seq::<T>::empty(),
            queue.stacked() == Seq::<T>::empty(),
    {
        TaskQueue::new()
    }
}

impl<E> Default for EventQueue<E> {
    fn default() -> (queue: Self)
        ensures
            queue@ == Map::<u32, (DebugLifetime, Seq<(u32, DebugLifetime, E)>)>::empty(),
            !queue.dispatched_flag(),
    {
        EventQueue::new()
    }
}

} // verus!
