use hibitset::BitSet;
use hibitset::BitSetLike;
use vstd::prelude::*;

verus! {

/// `hibitset::BitSet`, a set of `u32` indices. What one holds is known
/// to the library as `bitset_contents`.
#[verifier::external_type_specification]
#[verifier::external_body]
pub struct ExBitSet(BitSet);

/// The indices that a `hibitset::BitSet` holds.
pub uninterp spec fn bitset_contents(set: BitSet) -> Set<u32>;

/// The number of indices that a `hibitset::BitSet` can tell apart: four
/// layers of machine words, so `usize::BITS` to the fourth power.
pub open spec fn bitset_limit() -> int {
    if usize::BITS == 64 {
        0x100_0000
    } else {
        0x10_0000
    }
}

/// `hibitset::BitSet::new`: a set without indices.
#[verifier::external_body]
fn bitset_new() -> (set: BitSet)
    ensures
        bitset_contents(set) == Set::<u32>::empty(),
{
    BitSet::new()
}

/// `hibitset::BitSet::add`: puts `id` in the set and says whether it was
/// there already. The set panics on an index beyond its four layers, so
/// `id` stays below `bitset_limit`.
#[verifier::external_body]
fn bitset_add(set: &mut BitSet, id: u32) -> (was_present: bool)
    requires
        id < bitset_limit(),
    ensures
        bitset_contents(*final(set)) == bitset_contents(*old(set)).insert(id),
        was_present == bitset_contents(*old(set)).contains(id),
{
    set.add(id)
}

/// `hibitset::BitSet::remove`: takes `id` out of the set and says whether
/// it was there.
#[verifier::external_body]
fn bitset_remove(set: &mut BitSet, id: u32) -> (was_present: bool)
    ensures
        bitset_contents(*final(set)) == bitset_contents(*old(set)).remove(id),
        was_present == bitset_contents(*old(set)).contains(id),
{
    set.remove(id)
}

/// The first index that `hibitset::BitSetLike::iter` yields on the set:
/// one of its indices, and none only if it has none.
#[verifier::external_body]
fn bitset_first(set: &BitSet) -> (first: Option<u32>)
    ensures
        first is None <==> bitset_contents(*set) == Set::<u32>::empty(),
        first matches Some(id) ==> bitset_contents(*set).contains(id),
{
    set.iter().next()
}

/// Whether some position of `slots` is vacant.
pub open spec fn has_vacancy<T>(slots: Seq<Option<T>>) -> bool {
    exists|i: int| 0 <= i < slots.len() && (#[trigger] slots[i]) is None
}

/// A table of values in numbered slots. A slot that was given back is
/// handed out again before the table grows.
pub struct FreeList<T> {
    slots: Vec<Option<T>>,
    free: BitSet,
}

impl<T> View for FreeList<T> {
    type V = Seq<Option<T>>;

    closed spec fn view(&self) -> Seq<Option<T>> {
        self.slots@
    }
}

impl<T> FreeList<T> {
    /// The most slots that a table can have.
    pub open spec fn max_slots() -> int {
        bitset_limit()
    }

    /// The set of free indices holds exactly the vacant slots, and the
    /// table is no longer than the set can track.
    pub closed spec fn wf(&self) -> bool {
        &&& self.slots@.len() <= bitset_limit()
        &&& forall|i: u32|
            bitset_contents(self.free).contains(i) <==> i < self.slots@.len() && self.slots@[i as int] is None
    }

    /// What a well-formed table lets its callers know.
    pub proof fn lemma_wf(&self)
        requires
            self.wf(),
        ensures
            self@.len() <= Self::max_slots(),
    {
    }

    /// Whether a value can be taken in: a slot is vacant or the table can grow.
    pub open spec fn can_alloc(&self) -> bool {
        has_vacancy(self@) || self@.len() < Self::max_slots()
    }

    pub fn new() -> (list: Self)
        ensures
            list.wf(),
            list@ == Seq::<Option<T>>::empty(),
    {
        FreeList { slots: Vec::new(), free: bitset_new() }
    }

    /// The number of slots, vacant or not.
    pub fn len(&self) -> (n: usize)
        ensures
            n == self@.len(),
    {
        self.slots.len()
    }

    /// Whether `allocate` has no slot left to give.
    pub fn is_full(&self) -> (full: bool)
        requires
            self.wf(),
        ensures
            full == !self.can_alloc(),
    {
        let limit: usize = if usize::BITS == 64 {
            0x100_0000
        } else {
            0x10_0000
        };
        let first = bitset_first(&self.free);
        proof {
            if let Some(slot) = first {
                assert(self@[slot as int] is None);
            } else {
                assert forall|i: int| 0 <= i < self@.len() implies !((#[trigger] self@[i]) is None) by {
                    assert(!bitset_contents(self.free).contains(i as u32));
                }
            }
        }
        first.is_none() && self.slots.len() >= limit
    }

    /// Puts `value` in a vacant slot if there is one, and in a new slot at
    /// the end otherwise. Returns the slot.
    pub fn allocate(&mut self, value: T) -> (slot: u32)
        requires
            old(self).wf(),
            old(self).can_alloc(),
        ensures
            final(self).wf(),
            has_vacancy(old(self)@) ==> slot < old(self)@.len() && old(self)@[slot as int] is None
                && final(self)@ == old(self)@.update(slot as int, Some(value)),
            !has_vacancy(old(self)@) ==> slot == old(self)@.len() && final(self)@ == old(self)@.push(Some(value)),
    {
        match bitset_first(&self.free) {
            Some(slot) => {
                let _ = bitset_remove(&mut self.free, slot);
                self.slots[slot as usize] = Some(value);
                slot
            },
            None => {
                proof {
                    assert forall|i: int| 0 <= i < self@.len() implies !((#[trigger] self@[i]) is None) by {
                        assert(!bitset_contents(self.free).contains(i as u32));
                    }
                }
                let slot = self.slots.len() as u32;
                self.slots.push(Some(value));
                slot
            },
        }
    }

    /// Takes the value out of `slot` and marks the slot vacant.
    pub fn dealloc(&mut self, slot: u32) -> (value: Option<T>)
        requires
            old(self).wf(),
            slot < old(self)@.len(),
        ensures
            final(self).wf(),
            value == old(self)@[slot as int],
            final(self)@ == old(self)@.update(slot as int, None),
    {
        let _ = bitset_add(&mut self.free, slot);
        self.slots[slot as usize].take()
    }

    /// The value in `slot`, if the slot exists and is occupied.
    pub open spec fn value_at(&self, slot: u32) -> Option<T> {
        if slot < self@.len() {
            self@[slot as int]
        } else {
            None
        }
    }

    pub fn get(&self, slot: u32) -> (value: Option<&T>)
        ensures
            value == match self.value_at(slot) {
                Some(v) => Some(&v),
                None => None,
            },
    {
        if (slot as usize) < self.slots.len() {
            self.slots[slot as usize].as_ref()
        } else {
            None
        }
    }

    pub fn get_mut(&mut self, slot: u32) -> (value: Option<&mut T>)
        requires
            old(self).wf(),
        ensures
            final(self).wf(),
            match value {
                Some(v) => {
                    &&& old(self).value_at(slot) == Some(*v)
                    &&& final(self)@ == old(self)@.update(slot as int, Some(*final(v)))
                },
                None => old(self).value_at(slot) is None && final(self)@ == old(self)@,
            },
    {
        if (slot as usize) < self.slots.len() {
            self.slots[slot as usize].as_mut()
        } else {
            None
        }
    }
}

impl<T> Default for FreeList<T> {
    fn default() -> (list: Self)
        ensures
            list.wf(),
            list@ == Seq::<Option<T>>::empty(),
    {
        FreeList::new()
    }
}

} // verus!
