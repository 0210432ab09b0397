use std::collections::HashSet;
use vstd::prelude::*;

verus! {

broadcast use vstd::std_specs::hash::group_hash_axioms;

/// `fastrand::Rng`, a random number generator. Nothing is known of its state.
#[verifier::external_type_specification]
#[verifier::external_body]
pub struct ExRng(fastrand::Rng);

/// `fastrand::Rng::default`: a generator seeded by the process. Nothing is
/// claimed of it.
#[verifier::external_body]
fn rng_new() -> fastrand::Rng {
    fastrand::Rng::default()
}

/// `fastrand::Rng::u32` over the full range, which has no empty range to
/// panic on. Nothing is claimed of the number that comes back.
#[verifier::external_body]
fn rng_u32(rng: &mut fastrand::Rng) -> u32 {
    rng.u32(..)
}

/// How many random candidates `RandIdGen::allocate` tries before it takes
/// the smallest unused identifier instead.
pub const RANDOM_ATTEMPTS: usize = 64;

/// The most identifiers that a generator hands out at a time: half of the
/// `u32` range, so that a random candidate is unused more often than not.
pub const MAX_LIVE_IDS: usize = 0x7fff_ffff;

/// A set that holds every identifier from 1 up to, not including, `bound`
/// has at least `bound - 1` elements.
proof fn lemma_prefix_len(ids: Set<u32>, bound: u32)
    requires
        ids.finite(),
        bound >= 1,
        forall|id: u32| 1 <= id < bound ==> ids.contains(id),
    ensures
        ids.len() >= bound - 1,
    decreases bound,
{
    if bound > 1 {
        let last = (bound - 1) as u32;
        lemma_prefix_len(ids.remove(last), last);
    }
}

/// Hands out non-zero identifiers, none of which is in use twice at a time.
/// Candidates are drawn at random, so that a stale identifier is unlikely
/// to name something that is alive.
pub struct RandIdGen {
    rng: fastrand::Rng,
    ids: HashSet<u32>,
}

impl View for RandIdGen {
    type V = Set<u32>;

    /// The identifiers in use.
    closed spec fn view(&self) -> Set<u32> {
        self.ids@
    }
}

impl RandIdGen {
    /// Zero is never in use.
    pub open spec fn wf(&self) -> bool {
        &&& self@.finite()
        &&& !self@.contains(0)
    }

    /// Whether one more identifier can be handed out.
    pub open spec fn can_alloc(&self) -> bool {
        self@.len() < MAX_LIVE_IDS
    }

    pub fn new() -> (ids: Self)
        ensures
            ids.wf(),
            ids@ == Set::<u32>::empty(),
    {
        RandIdGen { rng: rng_new(), ids: HashSet::new() }
    }

    /// The number of identifiers in use.
    pub fn len(&self) -> (n: usize)
        ensures
            n == self@.len(),
    {
        self.ids.len()
    }

    /// Whether `id` is in use.
    pub fn is_used(&self, id: u32) -> (used: bool)
        ensures
            used == self@.contains(id),
    {
        self.ids.contains(&id)
    }

    /// Takes `candidate` into use if it is not zero and not in use, and
    /// says whether it did.
    pub fn claim(&mut self, candidate: u32) -> (claimed: bool)
        requires
            old(self).wf(),
        ensures
            final(self).wf(),
            claimed == (candidate != 0 && !old(self)@.contains(candidate)),
            final(self)@ == (if claimed {
                old(self)@.insert(candidate)
            } else {
                old(self)@
            }),
    {
        if candidate == 0 {
            return false;
        }
        let claimed = self.ids.insert(candidate);
        proof {
            if !claimed {
                assert(self@ =~= old(self)@);
            }
        }
        claimed
    }

    /// The smallest identifier that is not in use.
    fn smallest_unused(&self) -> (id: u32)
        requires
            self.wf(),
            self.can_alloc(),
        ensures
            id != 0,
            !self@.contains(id),
            forall|other: u32| 1 <= other < id ==> self@.contains(other),
    {
        let mut id: u32 = 1;
        while self.ids.contains(&id)
            invariant
                self.wf(),
                self.can_alloc(),
                1 <= id <= MAX_LIVE_IDS,
                forall|other: u32| 1 <= other < id ==> self@.contains(other),
            decreases MAX_LIVE_IDS - id,
        {
            proof {
                lemma_prefix_len(self@, (id + 1) as u32);
            }
            id = id + 1;
        }
        id
    }

    /// Takes a new identifier into use and returns it: a random one,
    /// or the smallest unused one where `RANDOM_ATTEMPTS` random candidates
    /// in a row were zero or in use.
    pub fn allocate(&mut self) -> (id: u32)
        requires
            old(self).wf(),
            old(self).can_alloc(),
        ensures
            final(self).wf(),
            id != 0,
            !old(self)@.contains(id),
            final(self)@ == old(self)@.insert(id),
    {
        let mut attempts: usize = 0;
        while attempts < RANDOM_ATTEMPTS
            invariant
                self.wf(),
                self@ == old(self)@,
                attempts <= RANDOM_ATTEMPTS,
            decreases RANDOM_ATTEMPTS - attempts,
        {
            let candidate = rng_u32(&mut self.rng);
            if self.claim(candidate) {
                return candidate;
            }
            attempts = attempts + 1;
        }
        let id = self.smallest_unused();
        let claimed = self.claim(id);
        assert(claimed);
        id
    }

    /// Takes `id` out of use.
    pub fn dealloc(&mut self, id: u32)
        requires
            old(self).wf(),
        ensures
            final(self).wf(),
            final(self)@ == old(self)@.remove(id),
    {
        let _ = self.ids.remove(&id);
    }
}

impl Default for RandIdGen {
    fn default() -> (ids: Self)
        ensures
            ids.wf(),
            ids@ == Set::<u32>::empty(),
    {
        RandIdGen::new()
    }
}

impl RandIdGen {
    /// Whether no more identifiers can be handed out.
    pub fn is_exhausted(&self) -> (exhausted: bool)
        ensures
            exhausted == !self.can_alloc(),
    {
        self.ids.len() >= MAX_LIVE_IDS
    }
}

} // verus!
