use vstd::prelude::*;

verus! {

/// The text of an optional debug label, as contracts see it.
pub open spec fn label_view(name: Option<String>) -> Option<Seq<char>> {
    match name {
        Some(s) => Some(s@),
        None => None,
    }
}

/// What the registry records for one slot.
pub struct SlotState {
    /// The generation that a live handle of this slot carries. It only grows.
    pub generation: u64,
    /// Whether a handle of the current generation has been handed out and not destroyed.
    pub live: bool,
    /// How many dependents are counted on the live handle.
    pub deps: usize,
    /// The label of the live handle.
    pub curr_name: Option<Seq<char>>,
    /// The label of the handle that was destroyed last.
    pub dead_name: Option<Seq<char>>,
}

impl SlotState {
    /// A slot that has never been handed out.
    pub open spec fn fresh() -> SlotState {
        SlotState { generation: 1, live: false, deps: 0, curr_name: None, dead_name: None }
    }

    /// Generations start at one. A slot that is handed out can still move
    /// to a next generation, and a slot that is not has no dependents and
    /// no label.
    pub open spec fn wf(self) -> bool {
        &&& self.generation >= 1
        &&& self.live ==> self.generation < u64::MAX
        &&& !self.live ==> self.deps == 0 && self.curr_name is None
    }

    /// The slot after its live handle has been destroyed.
    pub open spec fn destroyed(self) -> SlotState {
        SlotState {
            generation: (self.generation + 1) as u64,
            live: false,
            deps: 0,
            curr_name: None,
            dead_name: self.curr_name,
        }
    }

    /// The slot after it has been handed out under `name`.
    pub open spec fn activated(self, name: Option<Seq<char>>) -> SlotState {
        SlotState {
            generation: self.generation,
            live: true,
            deps: 0,
            curr_name: name,
            dead_name: self.dead_name,
        }
    }

    /// The slot with its dependency counter at `deps`.
    pub open spec fn with_deps(self, deps: usize) -> SlotState {
        SlotState { deps, ..self }
    }
}

/// A generation-counted liveness handle: a slot of a registry and the
/// generation that the slot had when the handle was made.
#[derive(Copy, Clone, Debug, PartialEq, Eq, Structural, Hash)]
pub struct Lifetime {
    slot: usize,
    gen: u64,
}

impl Lifetime {
    /// The index of the slot that the handle refers to.
    pub closed spec fn slot_index(self) -> int {
        self.slot as int
    }

    /// The generation that the handle captured.
    pub closed spec fn generation(self) -> u64 {
        self.gen
    }

    /// Two handles are the same handle iff they name the same slot and
    /// the same generation.
    pub proof fn lemma_eq(self, other: Lifetime)
        ensures
            self == other <==> self.slot_index() == other.slot_index() && self.generation()
                == other.generation(),
    {
    }
}

/// The mathematical state of a registry: one record per slot.
pub struct RegistryState {
    pub slots: Seq<SlotState>,
}

impl RegistryState {
    /// Every slot is well-formed.
    pub open spec fn wf(self) -> bool {
        forall|i: int| 0 <= i < self.slots.len() ==> (#[trigger] self.slots[i]).wf()
    }

    /// Whether the slot of `l` is one of the registry's.
    pub open spec fn in_range(self, l: Lifetime) -> bool {
        0 <= l.slot_index() < self.slots.len()
    }

    /// The record of the slot of `l`.
    pub open spec fn slot_of(self, l: Lifetime) -> SlotState {
        self.slots[l.slot_index()]
    }

    /// A handle is alive iff its slot is handed out at the generation it captured.
    pub open spec fn is_alive(self, l: Lifetime) -> bool {
        &&& self.in_range(l)
        &&& self.slot_of(l).live
        &&& self.slot_of(l).generation == l.generation()
    }

    /// A handle is retired once its slot has moved past the generation it
    /// captured. A retired handle never comes back to life.
    pub open spec fn is_retired(self, l: Lifetime) -> bool {
        &&& self.in_range(l)
        &&& l.generation() < self.slot_of(l).generation
    }

    /// The handle has been handed out at some point up to now.
    pub open spec fn has_issued(self, l: Lifetime) -> bool {
        self.is_alive(l) || self.is_retired(l)
    }

    /// The dependency counter of a live handle; zero for any other.
    pub open spec fn deps(self, l: Lifetime) -> nat {
        if self.is_alive(l) {
            self.slot_of(l).deps as nat
        } else {
            0
        }
    }

    /// Whether one more dependency can be counted on `l` without overflow.
    pub open spec fn can_inc_dep(self, l: Lifetime) -> bool {
        self.is_alive(l) ==> self.deps(l) < usize::MAX
    }

    /// Whether a dependency can be taken off `l` without underflow.
    pub open spec fn can_dec_dep(self, l: Lifetime) -> bool {
        self.is_alive(l) ==> self.deps(l) > 0
    }

    /// The state with `slot` as the record of slot `i`.
    pub open spec fn with_slot(self, i: int, slot: SlotState) -> RegistryState {
        RegistryState { slots: self.slots.update(i, slot) }
    }

    /// The state after one dependency was counted on `l`: nothing changes for a dead handle.
    pub open spec fn inc_dep(self, l: Lifetime) -> RegistryState {
        if self.is_alive(l) {
            self.with_slot(
                l.slot_index(),
                self.slot_of(l).with_deps((self.slot_of(l).deps + 1) as usize),
            )
        } else {
            self
        }
    }

    /// The state after one dependency was taken off `l`: nothing changes for a dead handle.
    pub open spec fn dec_dep(self, l: Lifetime) -> RegistryState {
        if self.is_alive(l) {
            self.with_slot(
                l.slot_index(),
                self.slot_of(l).with_deps((self.slot_of(l).deps - 1) as usize),
            )
        } else {
            self
        }
    }

    /// The state after `l` was destroyed: nothing changes for a dead handle.
    pub open spec fn destroy(self, l: Lifetime) -> RegistryState {
        if self.is_alive(l) {
            self.with_slot(l.slot_index(), self.slot_of(l).destroyed())
        } else {
            self
        }
    }

    /// `next` is a state that can follow `self`: slots are never taken away,
    /// generations never go down, and a live handle stays live for as long
    /// as its slot keeps its generation.
    pub open spec fn precedes(self, next: RegistryState) -> bool {
        &&& self.slots.len() <= next.slots.len()
        &&& forall|i: int|
            0 <= i < self.slots.len() ==> {
                &&& (#[trigger] self.slots[i]).generation <= next.slots[i].generation
                &&& self.slots[i].generation == next.slots[i].generation && self.slots[i].live
                    ==> next.slots[i].live
            }
    }

    /// `next` is `self` after the handle `l` was newly handed out under
    /// `name`: `l` takes a slot that was not live, at that slot's generation,
    /// or a slot added behind the old ones; every other old slot is
    /// untouched and every other added slot is fresh.
    pub open spec fn allocates(
        self,
        next: RegistryState,
        l: Lifetime,
        name: Option<Seq<char>>,
    ) -> bool {
        &&& self.slots.len() <= next.slots.len()
        &&& next.in_range(l)
        &&& forall|i: int|
            0 <= i < next.slots.len() && i != l.slot_index() ==> #[trigger] next.slots[i] == (if i
                < self.slots.len() {
                self.slots[i]
            } else {
                SlotState::fresh()
            })
        &&& {
            let before = if self.in_range(l) {
                self.slot_of(l)
            } else {
                SlotState::fresh()
            };
            &&& !before.live
            &&& before.generation == l.generation()
            &&& before.generation < u64::MAX
            &&& next.slot_of(l) == before.activated(name)
        }
    }

    /// The state after `n` dependencies were counted on `l`, one after the other.
    pub open spec fn inc_dep_times(self, l: Lifetime, n: nat) -> RegistryState
        decreases n,
    {
        if n == 0 {
            self
        } else {
            self.inc_dep(l).inc_dep_times(l, (n - 1) as nat)
        }
    }

    /// The state after `n` dependencies were taken off `l`, one after the other.
    pub open spec fn dec_dep_times(self, l: Lifetime, n: nat) -> RegistryState
        decreases n,
    {
        if n == 0 {
            self
        } else {
            self.dec_dep(l).dec_dep_times(l, (n - 1) as nat)
        }
    }

    /// Whether `n` dependencies can be counted on `l` one after the other without overflow.
    pub open spec fn can_inc_dep_times(self, l: Lifetime, n: nat) -> bool
        decreases n,
    {
        n > 0 ==> self.can_inc_dep(l) && self.inc_dep(l).can_inc_dep_times(l, (n - 1) as nat)
    }

    /// Whether `n` dependencies can be taken off `l` one after the other without underflow.
    pub open spec fn can_dec_dep_times(self, l: Lifetime, n: nat) -> bool
        decreases n,
    {
        n > 0 ==> self.can_dec_dep(l) && self.dec_dep(l).can_dec_dep_times(l, (n - 1) as nat)
    }

    /// The label that `l` is known by: the label it was made with while it
    /// is the current generation of its slot, the label of the last
    /// destroyed handle if it is that one, and no label otherwise.
    pub open spec fn name_of(self, l: Lifetime) -> Option<Option<Seq<char>>> {
        if !self.in_range(l) {
            None
        } else if l.generation() == self.slot_of(l).generation {
            Some(self.slot_of(l).curr_name)
        } else if l.generation() == self.slot_of(l).generation - 1 {
            Some(self.slot_of(l).dead_name)
        } else {
            None
        }
    }

    /// The text under which `l` is shown.
    pub open spec fn display_name(self, l: Lifetime) -> Seq<char> {
        match self.name_of(l) {
            Some(Some(name)) => name,
            Some(None) => "<name unspecified>"@,
            None => "<name unavailable>"@,
        }
    }

    /// A following state keeps every handle that was handed out: it is
    /// still alive, or it is retired.
    pub proof fn lemma_precedes_keeps_issued(self, next: RegistryState, l: Lifetime)
        requires
            self.precedes(next),
        ensures
            self.has_issued(l) ==> next.has_issued(l),
            self.is_retired(l) ==> next.is_retired(l) && !next.is_alive(l),
    {
    }

    /// A state follows itself.
    pub proof fn lemma_precedes_refl(self)
        ensures
            self.precedes(self),
    {
    }

    /// What follows a following state follows the state itself.
    pub proof fn lemma_precedes_trans(self, mid: RegistryState, next: RegistryState)
        requires
            self.precedes(mid),
            mid.precedes(next),
        ensures
            self.precedes(next),
    {
        assert forall|i: int| 0 <= i < self.slots.len() implies {
            &&& (#[trigger] self.slots[i]).generation <= next.slots[i].generation
            &&& self.slots[i].generation == next.slots[i].generation && self.slots[i].live
                ==> next.slots[i].live
        } by {
            assert(self.slots[i].generation <= mid.slots[i].generation);
            assert(mid.slots[i].generation <= next.slots[i].generation);
        }
    }

    /// Counting or releasing a dependency, or destroying a handle, leads to a following state.
    pub proof fn lemma_steps_precede(self, l: Lifetime)
        requires
            self.wf(),
        ensures
            self.precedes(self.inc_dep(l)),
            self.precedes(self.dec_dep(l)),
            self.precedes(self.destroy(l)),
            self.is_alive(l) ==> self.destroy(l).is_retired(l),
            self.can_inc_dep(l) ==> self.inc_dep(l).wf(),
            self.can_dec_dep(l) ==> self.dec_dep(l).wf(),
            self.destroy(l).wf(),
    {
    }

    /// Counting `n` dependencies on a live handle raises its counter by `n`
    /// and changes nothing else.
    pub proof fn lemma_inc_dep_times(self, l: Lifetime, n: nat)
        requires
            self.is_alive(l),
            self.deps(l) + n <= usize::MAX,
        ensures
            self.can_inc_dep_times(l, n),
            self.inc_dep_times(l, n) == self.with_slot(
                l.slot_index(),
                self.slot_of(l).with_deps((self.deps(l) + n) as usize),
            ),
        decreases n,
    {
        if n == 0 {
            assert(self.slots =~= self.with_slot(
                l.slot_index(),
                self.slot_of(l).with_deps(self.deps(l) as usize),
            ).slots);
        } else {
            let next = self.inc_dep(l);
            next.lemma_inc_dep_times(l, (n - 1) as nat);
            assert(next.inc_dep_times(l, (n - 1) as nat).slots =~= self.with_slot(
                l.slot_index(),
                self.slot_of(l).with_deps((self.deps(l) + n) as usize),
            ).slots);
        }
    }

    /// Taking `n` dependencies off a live handle that has at least `n`
    /// lowers its counter by `n` and changes nothing else.
    pub proof fn lemma_dec_dep_times(self, l: Lifetime, n: nat)
        requires
            self.is_alive(l),
            n <= self.deps(l),
        ensures
            self.can_dec_dep_times(l, n),
            self.dec_dep_times(l, n) == self.with_slot(
                l.slot_index(),
                self.slot_of(l).with_deps((self.deps(l) - n) as usize),
            ),
        decreases n,
    {
        if n == 0 {
            assert(self.slots =~= self.with_slot(
                l.slot_index(),
                self.slot_of(l).with_deps(self.deps(l) as usize),
            ).slots);
        } else {
            let next = self.dec_dep(l);
            next.lemma_dec_dep_times(l, (n - 1) as nat);
            assert(next.dec_dep_times(l, (n - 1) as nat).slots =~= self.with_slot(
                l.slot_index(),
                self.slot_of(l).with_deps((self.deps(l) - n) as usize),
            ).slots);
        }
    }

    /// Dependency accounting: counting `n` dependents on a live handle and
    /// then releasing all `n` is always possible and leaves the registry as
    /// it was. Where the counter stood at zero it stands at zero again, and
    /// one more release is an underflow that `dec_dep` does not admit.
    pub proof fn law_dependents_balance(self, l: Lifetime, n: nat)
        requires
            self.is_alive(l),
            self.deps(l) + n <= usize::MAX,
        ensures
            self.can_inc_dep_times(l, n),
            self.inc_dep_times(l, n).deps(l) == self.deps(l) + n,
            self.inc_dep_times(l, n).can_dec_dep_times(l, n),
            self.inc_dep_times(l, n).dec_dep_times(l, n) == self,
            self.deps(l) == 0 ==> !self.inc_dep_times(l, n).dec_dep_times(l, n).can_dec_dep(l),
    {
        self.lemma_inc_dep_times(l, n);
        let counted = self.inc_dep_times(l, n);
        counted.lemma_dec_dep_times(l, n);
        assert(counted.dec_dep_times(l, n).slots =~= self.slots);
    }

    /// Generational uniqueness, first half: a handle that is newly handed
    /// out differs from every handle that was handed out before it, alive
    /// or destroyed.
    pub proof fn law_new_handle_is_unique(
        self,
        next: RegistryState,
        first: Lifetime,
        second: Lifetime,
        name: Option<Seq<char>>,
    )
        requires
            self.wf(),
            self.has_issued(first),
            self.allocates(next, second, name),
        ensures
            first != second,
            next.is_alive(second),
            next.is_alive(first) == self.is_alive(first),
    {
        self.lemma_allocates(next, second, name);
    }

    /// Generational uniqueness, second half: once a handle is destroyed it
    /// is dead in every state that follows, also where its slot has been
    /// handed out anew.
    pub proof fn law_destroyed_stays_dead(self, later: RegistryState, l: Lifetime)
        requires
            self.wf(),
            self.is_alive(l),
            self.destroy(l).precedes(later),
        ensures
            !self.destroy(l).is_alive(l),
            !later.is_alive(l),
    {
        self.lemma_steps_precede(l);
        self.destroy(l).lemma_precedes_keeps_issued(later, l);
    }

    /// Handing out a new handle leads to a following state, in which the
    /// new handle is alive and differs from every handle handed out before.
    pub proof fn lemma_allocates(
        self,
        next: RegistryState,
        l: Lifetime,
        name: Option<Seq<char>>,
    )
        requires
            self.wf(),
            self.allocates(next, l, name),
        ensures
            next.wf(),
            self.precedes(next),
            !self.has_issued(l),
            next.is_alive(l),
            next.deps(l) == 0,
            forall|other: Lifetime| self.has_issued(other) ==> other != l,
            forall|other: Lifetime|
                other != l ==> next.is_alive(other) == self.is_alive(other) && next.deps(other)
                    == self.deps(other),
    {
        assert forall|i: int| 0 <= i < next.slots.len() implies (#[trigger] next.slots[i]).wf() by {
            if i != l.slot_index() && i < self.slots.len() {
                assert(self.slots[i].wf());
            }
            if self.in_range(l) {
                assert(self.slots[l.slot_index()].wf());
            }
        }
        assert forall|other: Lifetime| other != l implies next.is_alive(other) == self.is_alive(
            other,
        ) && next.deps(other) == self.deps(other) by {
            other.lemma_eq(l);
            if other.slot_index() == l.slot_index() {
                if self.in_range(l) {
                    assert(self.slots[l.slot_index()].wf());
                }
            } else if 0 <= other.slot_index() < next.slots.len() {
                assert(next.slots[other.slot_index()] == (if other.slot_index()
                    < self.slots.len() {
                    self.slots[other.slot_index()]
                } else {
                    SlotState::fresh()
                }));
            }
        }
    }
}


/// One slot of a registry.
struct SlotData {
    gen: u64,
    live: bool,
    deps: usize,
    curr_name: Option<String>,
    dead_name: Option<String>,
}

impl SlotData {
    closed spec fn state(self) -> SlotState {
        SlotState {
            generation: self.gen,
            live: self.live,
            deps: self.deps,
            curr_name: label_view(self.curr_name),
            dead_name: label_view(self.dead_name),
        }
    }
}

/// The number of slots that a registry made by `new` adds at a time.
pub const POOL_BLOCK_SIZE: usize = 1024;

/// A pool of reusable generation-counted slots: the liveness oracle for
/// every handle made from it.
pub struct LifetimeRegistry {
    slots: Vec<SlotData>,
    pool: Vec<usize>,
    block_size: usize,
}

impl View for LifetimeRegistry {
    type V = RegistryState;

    closed spec fn view(&self) -> RegistryState {
        RegistryState { slots: Seq::new(self.slots@.len(), |i: int| self.slots@[i].state()) }
    }
}

impl LifetimeRegistry {
    /// The slots in the pool are distinct slots of the registry that are
    /// not handed out and whose generation can still be handed out.
    closed spec fn pool_wf(&self) -> bool {
        &&& forall|j: int|
            0 <= j < self.pool@.len() ==> {
                &&& (#[trigger] self.pool@[j]) < self.slots@.len()
                &&& !self.slots@[self.pool@[j] as int].live
                &&& self.slots@[self.pool@[j] as int].gen < u64::MAX
            }
        &&& forall|j: int, k: int|
            0 <= j < k < self.pool@.len() ==> self.pool@[j] != self.pool@[k]
    }

    /// The state is well-formed, and so is the pool of slots to hand out.
    pub closed spec fn wf(&self) -> bool {
        &&& self@.wf()
        &&& self.pool_wf()
        &&& self.block_size >= 1
    }

    /// The number of slots that are added when none is left to hand out.
    pub closed spec fn block_size_spec(&self) -> usize {
        self.block_size
    }

    /// What a well-formed registry lets its callers know.
    pub proof fn lemma_wf(&self)
        requires
            self.wf(),
        ensures
            self@.wf(),
            self.block_size_spec() >= 1,
    {
    }

    /// An empty registry that grows by `POOL_BLOCK_SIZE` slots at a time.
    pub fn new() -> (reg: Self)
        ensures
            reg.wf(),
            reg@.slots.len() == 0,
            reg.block_size_spec() == POOL_BLOCK_SIZE,
    {
        Self::with_block_size(POOL_BLOCK_SIZE)
    }

    /// An empty registry that grows by `block_size` slots at a time.
    pub fn with_block_size(block_size: usize) -> (reg: Self)
        requires
            block_size >= 1,
        ensures
            reg.wf(),
            reg@.slots.len() == 0,
            reg.block_size_spec() == block_size,
    {
        LifetimeRegistry { slots: Vec::new(), pool: Vec::new(), block_size }
    }

    /// The number of slots, handed out or not.
    pub fn slot_count(&self) -> (n: usize)
        ensures
            n == self@.slots.len(),
    {
        self.slots.len()
    }

    /// Adds one block of fresh slots and puts them in the pool.
    fn grow(&mut self)
        requires
            old(self).wf(),
        ensures
            final(self).wf(),
            final(self).pool@.len() > 0,
            final(self).block_size == old(self).block_size,
            old(self)@.slots.len() <= final(self)@.slots.len(),
            forall|i: int|
                0 <= i < final(self)@.slots.len() ==> #[trigger] final(self)@.slots[i] == (if i
                    < old(self)@.slots.len() {
                    old(self)@.slots[i]
                } else {
                    SlotState::fresh()
                }),
    {
        let mut added: usize = 0;
        while added < self.block_size
            invariant
                self.wf(),
                added <= self.block_size,
                self.block_size == old(self).block_size,
                added > 0 ==> self.pool@.len() > 0,
                old(self)@.slots.len() <= self@.slots.len(),
                forall|i: int|
                    0 <= i < self@.slots.len() ==> #[trigger] self@.slots[i] == (if i < old(self)@.slots.len() {
                        old(self)@.slots[i]
                    } else {
                        SlotState::fresh()
                    }),
            decreases self.block_size - added,
        {
            let ghost before = *self;
            let index = self.slots.len();
            self.slots.push(
                SlotData { gen: 1, live: false, deps: 0, curr_name: None, dead_name: None },
            );
            self.pool.push(index);
            added = added + 1;
            proof {
                assert(self.slots@ == before.slots@.push(self.slots@[index as int]));
                assert forall|i: int| 0 <= i < self@.slots.len() implies #[trigger] self@.slots[i]
                    == (if i < before@.slots.len() {
                    before@.slots[i]
                } else {
                    SlotState::fresh()
                }) by {}
                assert forall|i: int| 0 <= i < self@.slots.len() implies (
                #[trigger] self@.slots[i]).wf() by {
                    if i < before@.slots.len() {
                        assert(before@.slots[i].wf());
                    }
                }
                assert forall|j: int| 0 <= j < self.pool@.len() implies {
                    &&& (#[trigger] self.pool@[j]) < self.slots@.len()
                    &&& !self.slots@[self.pool@[j] as int].live
                    &&& self.slots@[self.pool@[j] as int].gen < u64::MAX
                } by {
                    if j < before.pool@.len() {
                        assert(self.pool@[j] == before.pool@[j]);
                    }
                }
                assert forall|j: int, k: int| 0 <= j < k < self.pool@.len() implies self.pool@[j]
                    != self.pool@[k] by {
                    assert(self.pool@[j] == before.pool@[j]);
                    assert(before.pool@[j] < before.slots@.len());
                }
            }
        }
    }

    /// Hands out a new handle under `name`, on a slot from the pool; the
    /// pool is refilled with a block of fresh slots when it is empty.
    pub fn allocate(&mut self, name: Option<String>) -> (l: Lifetime)
        requires
            old(self).wf(),
        ensures
            final(self).wf(),
            final(self).block_size_spec() == old(self).block_size_spec(),
            old(self)@.allocates(final(self)@, l, label_view(name)),
    {
        if self.pool.len() == 0 {
            self.grow();
        }
        let ghost grown = *self;
        let slot = self.pool.pop().unwrap();
        assert(slot == grown.pool@[grown.pool@.len() - 1]);
        let gen = self.slots[slot].gen;
        let data = &mut self.slots[slot];
        data.live = true;
        data.deps = 0;
        data.curr_name = name;
        let l = Lifetime { slot, gen };
        proof {
            assert(self@.slots[slot as int] == grown@.slots[slot as int].activated(
                label_view(name),
            ));
            assert forall|i: int| 0 <= i < self@.slots.len() && i != slot implies self@.slots[i]
                == grown@.slots[i] by {}
            assert(grown@.slots[slot as int].wf());
            assert forall|i: int| 0 <= i < self@.slots.len() implies (#[trigger] self@.slots[i]).wf() by {
                if i != slot {
                    assert(grown@.slots[i].wf());
                }
            }
            assert forall|j: int| 0 <= j < self.pool@.len() implies {
                &&& (#[trigger] self.pool@[j]) < self.slots@.len()
                &&& !self.slots@[self.pool@[j] as int].live
                &&& self.slots@[self.pool@[j] as int].gen < u64::MAX
            } by {
                assert(self.pool@[j] == grown.pool@[j]);
                assert(grown.pool@[j] != grown.pool@[grown.pool@.len() - 1]);
            }
            assert forall|i: int|
                0 <= i < self@.slots.len() && i != l.slot_index() implies #[trigger] self@.slots[i]
                == (if i < old(self)@.slots.len() {
                old(self)@.slots[i]
            } else {
                SlotState::fresh()
            }) by {
                assert(self@.slots[i] == grown@.slots[i]);
            }
        }
        l
    }
}


impl LifetimeRegistry {
    /// The dependency counter of `l` if it is alive, zero otherwise.
    pub fn dep_count(&self, l: Lifetime) -> (n: usize)
        ensures
            n == self@.deps(l),
    {
        if l.is_alive(self) {
            self.slots[l.slot].deps
        } else {
            0
        }
    }
}

impl Lifetime {
    /// Makes a new handle under `name`. It is alive, nothing depends on it,
    /// and it differs from every handle that `reg` handed out before.
    pub fn new(reg: &mut LifetimeRegistry, name: Option<String>) -> (l: Lifetime)
        requires
            old(reg).wf(),
        ensures
            final(reg).wf(),
            final(reg).block_size_spec() == old(reg).block_size_spec(),
            old(reg)@.allocates(final(reg)@, l, label_view(name)),
            old(reg)@.precedes(final(reg)@),
            !old(reg)@.has_issued(l),
            final(reg)@.is_alive(l),
            final(reg)@.deps(l) == 0,
    {
        let l = reg.allocate(name);
        proof {
            old(reg).lemma_wf();
            old(reg)@.lemma_allocates(reg@, l, label_view(name));
        }
        l
    }

    pub fn is_alive(self, reg: &LifetimeRegistry) -> (alive: bool)
        ensures
            alive == reg@.is_alive(self),
    {
        self.slot < reg.slots.len() && reg.slots[self.slot].live && reg.slots[self.slot].gen
            == self.gen
    }

    pub fn is_condemned(self, reg: &LifetimeRegistry) -> (condemned: bool)
        ensures
            condemned == !reg@.is_alive(self),
    {
        !self.is_alive(reg)
    }

    /// Counts one more dependency on the handle if it is alive, and says
    /// whether it did.
    pub fn try_inc_dep(self, reg: &mut LifetimeRegistry) -> (counted: bool)
        requires
            old(reg).wf(),
            old(reg)@.can_inc_dep(self),
        ensures
            final(reg).wf(),
            final(reg).block_size_spec() == old(reg).block_size_spec(),
            counted == old(reg)@.is_alive(self),
            final(reg)@ == old(reg)@.inc_dep(self),
    {
        if !self.is_alive(reg) {
            return false;
        }
        let deps = reg.slots[self.slot].deps;
        reg.slots[self.slot].deps = deps + 1;
        proof {
            assert(reg@.slots =~= old(reg)@.inc_dep(self).slots);
            old(reg)@.lemma_steps_precede(self);
        }
        true
    }

    /// Counts one more dependency on the handle; a dead handle is left alone.
    pub fn inc_dep(self, reg: &mut LifetimeRegistry)
        requires
            old(reg).wf(),
            old(reg)@.can_inc_dep(self),
        ensures
            final(reg).wf(),
            final(reg).block_size_spec() == old(reg).block_size_spec(),
            final(reg)@ == old(reg)@.inc_dep(self),
    {
        let _ = self.try_inc_dep(reg);
    }

    /// Takes one dependency off the handle; a dead handle is left alone.
    /// Taking off more than were counted is a programming error.
    pub fn dec_dep(self, reg: &mut LifetimeRegistry)
        requires
            old(reg).wf(),
            old(reg)@.can_dec_dep(self),
        ensures
            final(reg).wf(),
            final(reg).block_size_spec() == old(reg).block_size_spec(),
            final(reg)@ == old(reg)@.dec_dep(self),
    {
        if !self.is_alive(reg) {
            return ;
        }
        let deps = reg.slots[self.slot].deps;
        reg.slots[self.slot].deps = deps - 1;
        proof {
            assert(reg@.slots =~= old(reg)@.dec_dep(self).slots);
            old(reg)@.lemma_steps_precede(self);
        }
    }

    /// Destroys the handle if it is alive, and says whether it did: the
    /// slot moves to its next generation, loses its dependents and its
    /// label, and goes back to the pool unless its generations are used up.
    pub fn try_destroy(self, reg: &mut LifetimeRegistry) -> (destroyed: bool)
        requires
            old(reg).wf(),
        ensures
            final(reg).wf(),
            final(reg).block_size_spec() == old(reg).block_size_spec(),
            destroyed == old(reg)@.is_alive(self),
            final(reg)@ == old(reg)@.destroy(self),
    {
        if !self.is_alive(reg) {
            return false;
        }
        assert(old(reg)@.slots[self.slot as int].wf());
        let data = &mut reg.slots[self.slot];
        data.gen = data.gen + 1;
        data.live = false;
        data.deps = 0;
        data.dead_name = data.curr_name.take();
        let reusable = data.gen != u64::MAX;
        if reusable {
            reg.pool.push(self.slot);
        }
        proof {
            assert(reg@.slots =~= old(reg)@.destroy(self).slots);
            old(reg)@.lemma_steps_precede(self);
            assert forall|j: int| 0 <= j < reg.pool@.len() implies {
                &&& (#[trigger] reg.pool@[j]) < reg.slots@.len()
                &&& !reg.slots@[reg.pool@[j] as int].live
                &&& reg.slots@[reg.pool@[j] as int].gen < u64::MAX
            } by {
                if j < old(reg).pool@.len() {
                    assert(reg.pool@[j] == old(reg).pool@[j]);
                }
            }
            assert forall|j: int, k: int| 0 <= j < k < reg.pool@.len() implies reg.pool@[j]
                != reg.pool@[k] by {
                assert(reg.pool@[j] == old(reg).pool@[j]);
                if k < old(reg).pool@.len() {
                    assert(reg.pool@[k] == old(reg).pool@[k]);
                }
            }
        }
        true
    }

    /// Destroys the handle; a dead handle is left alone.
    pub fn destroy(self, reg: &mut LifetimeRegistry)
        requires
            old(reg).wf(),
        ensures
            final(reg).wf(),
            final(reg).block_size_spec() == old(reg).block_size_spec(),
            final(reg)@ == old(reg)@.destroy(self),
    {
        let _ = self.try_destroy(reg);
    }

    /// The text under which the handle is shown: its label while it is the
    /// current or the last destroyed generation of its slot.
    pub fn debug_name(self, reg: &LifetimeRegistry) -> (name: String)
        requires
            reg.wf(),
        ensures
            name@ == reg@.display_name(self),
    {
        if self.slot >= reg.slots.len() {
            return "<name unavailable>".to_owned();
        }
        let data = &reg.slots[self.slot];
        assert(reg@.slots[self.slot as int].wf());
        let label = if self.gen == data.gen {
            Some(&data.curr_name)
        } else if self.gen == data.gen - 1 {
            Some(&data.dead_name)
        } else {
            None
        };
        match label {
            Some(Some(name)) => name.clone(),
            Some(None) => "<name unspecified>".to_owned(),
            None => "<name unavailable>".to_owned(),
        }
    }
}


/// A liveness handle kept for diagnostics: it wraps the `Lifetime` that it
/// was made from.
#[derive(Copy, Clone, Debug, PartialEq, Eq, Structural, Hash)]
pub struct DebugLifetime(Lifetime);

impl DebugLifetime {
    /// Whether debug lifetimes track anything.
    pub const IS_ENABLED: bool = true;

    /// The lifetime that the handle wraps.
    pub closed spec fn lifetime(self) -> Lifetime {
        self.0
    }

    /// The handle that wraps `lifetime`.
    pub closed spec fn wrap(lifetime: Lifetime) -> DebugLifetime {
        DebugLifetime(lifetime)
    }

    /// Wrapping and unwrapping are inverse to each other, so two handles
    /// are equal iff they wrap the same lifetime.
    pub proof fn lemma_wrap(self, lifetime: Lifetime)
        ensures
            DebugLifetime::wrap(lifetime).lifetime() == lifetime,
            DebugLifetime::wrap(self.lifetime()) == self,
    {
    }

    pub fn new(reg: &mut LifetimeRegistry, name: Option<String>) -> (l: DebugLifetime)
        requires
            old(reg).wf(),
        ensures
            final(reg).wf(),
            final(reg).block_size_spec() == old(reg).block_size_spec(),
            old(reg)@.allocates(final(reg)@, l.lifetime(), label_view(name)),
            old(reg)@.precedes(final(reg)@),
            !old(reg)@.has_issued(l.lifetime()),
            final(reg)@.is_alive(l.lifetime()),
            final(reg)@.deps(l.lifetime()) == 0,
    {
        DebugLifetime(Lifetime::new(reg, name))
    }

    pub fn from_lifetime(lifetime: Lifetime) -> (l: DebugLifetime)
        ensures
            l == DebugLifetime::wrap(lifetime),
            l.lifetime() == lifetime,
    {
        DebugLifetime(lifetime)
    }

    pub fn is_possibly_alive(self, reg: &LifetimeRegistry) -> (alive: bool)
        ensures
            alive == reg@.is_alive(self.lifetime()),
    {
        self.0.is_alive(reg)
    }

    pub fn is_condemned(self, reg: &LifetimeRegistry) -> (condemned: bool)
        ensures
            condemned == !reg@.is_alive(self.lifetime()),
    {
        !self.is_possibly_alive(reg)
    }

    pub fn inc_dep(self, reg: &mut LifetimeRegistry)
        requires
            old(reg).wf(),
            old(reg)@.can_inc_dep(self.lifetime()),
        ensures
            final(reg).wf(),
            final(reg).block_size_spec() == old(reg).block_size_spec(),
            final(reg)@ == old(reg)@.inc_dep(self.lifetime()),
    {
        self.0.inc_dep(reg);
    }

    pub fn dec_dep(self, reg: &mut LifetimeRegistry)
        requires
            old(reg).wf(),
            old(reg)@.can_dec_dep(self.lifetime()),
        ensures
            final(reg).wf(),
            final(reg).block_size_spec() == old(reg).block_size_spec(),
            final(reg)@ == old(reg)@.dec_dep(self.lifetime()),
    {
        self.0.dec_dep(reg);
    }

    pub fn destroy(self, reg: &mut LifetimeRegistry)
        requires
            old(reg).wf(),
        ensures
            final(reg).wf(),
            final(reg).block_size_spec() == old(reg).block_size_spec(),
            final(reg)@ == old(reg)@.destroy(self.lifetime()),
    {
        self.0.destroy(reg);
    }

    /// The lifetime that the handle wraps.
    pub fn raw(self) -> (raw: Option<Lifetime>)
        ensures
            raw == Some(self.lifetime()),
    {
        Some(self.0)
    }
}

/// A handle that carries a debug lifetime.
pub trait DebugLifetimeWrapper: Copy {
    /// The debug lifetime that the handle carries.
    spec fn debug_lifetime(self) -> DebugLifetime;

    fn as_debug_lifetime(me: Self) -> (l: DebugLifetime)
        ensures
            l == me.debug_lifetime(),
    ;

    fn is_possibly_alive(self, reg: &LifetimeRegistry) -> (alive: bool)
        ensures
            alive == reg@.is_alive(self.debug_lifetime().lifetime()),
    {
        Self::as_debug_lifetime(self).is_possibly_alive(reg)
    }

    fn is_condemned(self, reg: &LifetimeRegistry) -> (condemned: bool)
        ensures
            condemned == !reg@.is_alive(self.debug_lifetime().lifetime()),
    {
        Self::as_debug_lifetime(self).is_condemned(reg)
    }
}

/// A handle that carries a lifetime, the same one that its debug lifetime wraps.
pub trait LifetimeWrapper: DebugLifetimeWrapper {
    fn as_lifetime(me: Self) -> (l: Lifetime)
        ensures
            l == me.debug_lifetime().lifetime(),
    ;

    fn is_alive(self, reg: &LifetimeRegistry) -> (alive: bool)
        ensures
            alive == reg@.is_alive(self.debug_lifetime().lifetime()),
    {
        Self::as_lifetime(self).is_alive(reg)
    }

    /// The handle itself if it is alive.
    fn filter_alive(self, reg: &LifetimeRegistry) -> (kept: Option<Self>)
        ensures
            kept == (if reg@.is_alive(self.debug_lifetime().lifetime()) {
                Some(self)
            } else {
                None
            }),
    {
        if self.is_alive(reg) {
            Some(self)
        } else {
            None
        }
    }
}

/// A handle whose lifetime its holder may destroy.
pub trait DestructibleLifetime: DebugLifetimeWrapper {
    fn destroy(self, reg: &mut LifetimeRegistry)
        requires
            old(reg).wf(),
        ensures
            final(reg).wf(),
            final(reg).block_size_spec() == old(reg).block_size_spec(),
            final(reg)@ == old(reg)@.destroy(self.debug_lifetime().lifetime()),
    ;
}

impl DebugLifetimeWrapper for Lifetime {
    open spec fn debug_lifetime(self) -> DebugLifetime {
        DebugLifetime::wrap(self)
    }

    fn as_debug_lifetime(me: Self) -> (l: DebugLifetime) {
        DebugLifetime::from_lifetime(me)
    }
}

impl LifetimeWrapper for Lifetime {
    fn as_lifetime(me: Self) -> (l: Lifetime) {
        me
    }
}

impl DestructibleLifetime for Lifetime {
    fn destroy(self, reg: &mut LifetimeRegistry) {
        Lifetime::destroy(self, reg);
    }
}

impl DebugLifetimeWrapper for DebugLifetime {
    open spec fn debug_lifetime(self) -> DebugLifetime {
        self
    }

    fn as_debug_lifetime(me: Self) -> (l: DebugLifetime) {
        me
    }
}

impl DestructibleLifetime for DebugLifetime {
    fn destroy(self, reg: &mut LifetimeRegistry) {
        DebugLifetime::destroy(self, reg);
    }
}

/// The authoritative holder of a lifetime: the one that destroys it.
#[derive(Debug, PartialEq, Eq, Hash)]
pub struct OwnedLifetime<L: DestructibleLifetime>(L);

impl<L: DestructibleLifetime> OwnedLifetime<L> {
    /// The handle that is held.
    pub closed spec fn inner(self) -> L {
        self.0
    }

    /// The holder of `lifetime`.
    pub closed spec fn holding(lifetime: L) -> Self {
        OwnedLifetime(lifetime)
    }

    pub fn new(lifetime: L) -> (owned: Self)
        ensures
            owned == Self::holding(lifetime),
            owned.inner() == lifetime,
    {
        Self(lifetime)
    }

    pub fn get(&self) -> (lifetime: L)
        ensures
            lifetime == self.inner(),
    {
        self.0
    }

    /// Gives the handle back without destroying its lifetime.
    pub fn defuse(self) -> (lifetime: L)
        ensures
            lifetime == self.inner(),
    {
        self.0
    }

    /// Ends the holding: destroys the lifetime of the handle.
    pub fn destroy(self, reg: &mut LifetimeRegistry)
        requires
            old(reg).wf(),
        ensures
            final(reg).wf(),
            final(reg).block_size_spec() == old(reg).block_size_spec(),
            final(reg)@ == old(reg)@.destroy(self.inner().debug_lifetime().lifetime()),
    {
        self.0.destroy(reg);
    }
}

/// A holder that counts as one dependency on the lifetime of its handle,
/// from `new` until `into_inner`.
#[derive(Debug, PartialEq, Eq, Hash)]
pub struct Dependent<L: DebugLifetimeWrapper>(L);

impl<L: DebugLifetimeWrapper> Dependent<L> {
    /// The handle that is held.
    pub closed spec fn inner(self) -> L {
        self.0
    }

    /// The lifetime on which the holder counts.
    pub open spec fn lifetime(self) -> Lifetime {
        self.inner().debug_lifetime().lifetime()
    }

    /// Counts one dependency on the lifetime of `lifetime`, unless it is dead.
    pub fn new(reg: &mut LifetimeRegistry, lifetime: L) -> (dep: Self)
        requires
            old(reg).wf(),
            old(reg)@.can_inc_dep(lifetime.debug_lifetime().lifetime()),
        ensures
            final(reg).wf(),
            final(reg).block_size_spec() == old(reg).block_size_spec(),
            final(reg)@ == old(reg)@.inc_dep(lifetime.debug_lifetime().lifetime()),
            dep.inner() == lifetime,
    {
        L::as_debug_lifetime(lifetime).inc_dep(reg);
        Self(lifetime)
    }

    pub fn get(&self) -> (lifetime: L)
        ensures
            lifetime == self.inner(),
    {
        self.0
    }

    /// Ends the holding: takes the dependency off the lifetime, unless it
    /// is dead, and gives the handle back.
    pub fn into_inner(self, reg: &mut LifetimeRegistry) -> (lifetime: L)
        requires
            old(reg).wf(),
            old(reg)@.can_dec_dep(self.lifetime()),
        ensures
            final(reg).wf(),
            final(reg).block_size_spec() == old(reg).block_size_spec(),
            final(reg)@ == old(reg)@.dec_dep(self.lifetime()),
            lifetime == self.inner(),
    {
        L::as_debug_lifetime(self.0).dec_dep(reg);
        self.0
    }

    /// A second holder of the same handle, counted as a dependency of its own.
    pub fn clone(&self, reg: &mut LifetimeRegistry) -> (dep: Self)
        requires
            old(reg).wf(),
            old(reg)@.can_inc_dep(self.lifetime()),
        ensures
            final(reg).wf(),
            final(reg).block_size_spec() == old(reg).block_size_spec(),
            final(reg)@ == old(reg)@.inc_dep(self.lifetime()),
            dep.inner() == self.inner(),
    {
        Self::new(reg, self.0)
    }
}

/// A holder of `lifetime` that counts as a dependency on it.
pub fn as_dependent<L: DebugLifetimeWrapper>(lifetime: L, reg: &mut LifetimeRegistry) -> (dep:
    Dependent<L>)
    requires
        old(reg).wf(),
        old(reg)@.can_inc_dep(lifetime.debug_lifetime().lifetime()),
    ensures
        final(reg).wf(),
        final(reg).block_size_spec() == old(reg).block_size_spec(),
        final(reg)@ == old(reg)@.inc_dep(lifetime.debug_lifetime().lifetime()),
        dep.inner() == lifetime,
{
    Dependent::new(reg, lifetime)
}

impl Default for LifetimeRegistry {
    fn default() -> (reg: Self)
        ensures
            reg.wf(),
            reg@.slots.len() == 0,
            reg.block_size_spec() == POOL_BLOCK_SIZE,
    {
        LifetimeRegistry::new()
    }
}

impl From<Lifetime> for DebugLifetime {
    fn from(lifetime: Lifetime) -> (l: Self) {
        DebugLifetime::from_lifetime(lifetime)
    }
}

impl vstd::std_specs::convert::FromSpecImpl<Lifetime> for DebugLifetime {
    open spec fn obeys_from_spec() -> bool {
        true
    }

    open spec fn from_spec(lifetime: Lifetime) -> Self {
        DebugLifetime::wrap(lifetime)
    }
}

impl<L: DestructibleLifetime> From<L> for OwnedLifetime<L> {
    fn from(lifetime: L) -> (owned: Self) {
        OwnedLifetime::new(lifetime)
    }
}

impl<L: DestructibleLifetime> vstd::std_specs::convert::FromSpecImpl<L> for OwnedLifetime<L> {
    open spec fn obeys_from_spec() -> bool {
        true
    }

    open spec fn from_spec(lifetime: L) -> Self {
        OwnedLifetime::holding(lifetime)
    }
}

impl LifetimeRegistry {
    /// Whether one more dependency can be counted on `l` without overflow.
    pub fn can_inc_dep(&self, l: Lifetime) -> (ok: bool)
        ensures
            ok == self@.can_inc_dep(l),
    {
        !l.is_alive(self) || self.dep_count(l) < usize::MAX
    }

    /// Whether a dependency can be taken off `l` without underflow.
    pub fn can_dec_dep(&self, l: Lifetime) -> (ok: bool)
        ensures
            ok == self@.can_dec_dep(l),
    {
        !l.is_alive(self) || self.dep_count(l) > 0
    }
}

} // verus!

