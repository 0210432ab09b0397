use crate::entity::Archetype;
use crate::storage::Storage;
use vstd::prelude::*;

verus! {

/// A marker for what may be reached while the whole is borrowed
/// exclusively: a storage or an archetype may be so reached when what it
/// is made for may.
pub trait BypassExclusivity {

}

impl<T: BypassExclusivity> BypassExclusivity for Storage<T> {

}

impl<T: ?Sized + BypassExclusivity> BypassExclusivity for Archetype<T> {

}

} // verus!
