use vstd::prelude::*;

verus! {

/// Growing a vector up to a length, or up to a slot, with made-up elements.
pub trait VecExt {
    type Elem;

    /// The elements of the vector.
    spec fn elems(&self) -> Seq<Self::Elem>;

    /// Makes the vector at least `min_len` long: each element that is
    /// added is one that `f` returned. A vector that is long enough is
    /// left as it is.
    fn ensure_length_with<F: Fn() -> Self::Elem>(&mut self, min_len: usize, f: F)
        requires
            f.requires(()),
        ensures
            final(self).elems().len() == (if old(self).elems().len() < min_len {
                min_len as nat
            } else {
                old(self).elems().len()
            }),
            forall|i: int|
                0 <= i < old(self).elems().len() ==> final(self).elems()[i] == old(self).elems()[i],
            forall|i: int|
                old(self).elems().len() <= i < final(self).elems().len() ==> f.ensures(
                    (),
                    #[trigger] final(self).elems()[i],
                ),
    ;

    /// Makes the vector long enough to have a slot `index`, as
    /// `ensure_length_with` does, and returns that slot.
    fn ensure_slot_with<F: Fn() -> Self::Elem>(&mut self, index: usize, f: F) -> (slot:
        &mut Self::Elem)
        requires
            index < usize::MAX,
            f.requires(()),
        ensures
            index < old(self).elems().len() ==> *slot == old(self).elems()[index as int]
                && final(self).elems() == old(self).elems().update(index as int, *final(slot)),
            index >= old(self).elems().len() ==> {
                &&& f.ensures((), *slot)
                &&& final(self).elems().len() == index + 1
                &&& final(self).elems()[index as int] == *final(slot)
            },
            forall|i: int|
                0 <= i < old(self).elems().len() && i != index ==> final(self).elems()[i]
                    == old(self).elems()[i],
            forall|i: int|
                old(self).elems().len() <= i < final(self).elems().len() && i != index
                    ==> f.ensures((), #[trigger] final(self).elems()[i]),
    ;
}

impl<T> VecExt for Vec<T> {
    type Elem = T;

    open spec fn elems(&self) -> Seq<T> {
        self@
    }

    fn ensure_length_with<F: Fn() -> T>(&mut self, min_len: usize, f: F) {
        while self.len() < min_len
            invariant
                f.requires(()),
                old(self)@.len() <= self@.len(),
                self@.len() <= min_len || self@.len() == old(self)@.len(),
                forall|i: int| 0 <= i < old(self)@.len() ==> self@[i] == old(self)@[i],
                forall|i: int|
                    old(self)@.len() <= i < self@.len() ==> f.ensures((), #[trigger] self@[i]),
            decreases min_len - self.len(),
        {
            self.push(f());
        }
    }

    fn ensure_slot_with<F: Fn() -> T>(&mut self, index: usize, f: F) -> (slot: &mut T) {
        self.ensure_length_with(index + 1, f);
        &mut self[index]
    }
}

} // verus!
