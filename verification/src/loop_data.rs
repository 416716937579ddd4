//! Loop-affine storage: state usable only from the thread driving its loop.
//!
//! A cell remembers the identity of the loop it was minted for. Every
//! access takes the identity of the loop currently driving the caller and
//! is refused deterministically when the two differ, so non-thread-safe
//! state can be kept inside a loop without locks: the check is a runtime
//! capability test, never silently skipped.

use vstd::prelude::*;

verus! {

/// An access was attempted from a thread not driving the owning loop.
#[derive(Clone, Copy, PartialEq, Eq, Structural, Debug)]
pub enum AccessError {
    /// The caller runs on a different loop than the one that owns the data.
    WrongLoop,
}

/// A value tied to one loop's identity.
pub struct LoopData<T> {
    owner: u64,
    value: T,
}

impl<T> LoopData<T> {
    /// The identity of the loop this cell belongs to.
    pub closed spec fn owner_id(self) -> u64 {
        self.owner
    }

    /// The stored value.
    pub closed spec fn stored(self) -> T {
        self.value
    }

    /// Mints a cell owned by the loop with the given identity.
    pub fn new(owner: u64, value: T) -> (r: LoopData<T>)
        ensures
            r.owner_id() == owner,
            r.stored() == value,
    {
        LoopData { owner, value }
    }

    /// Borrows the value, only for a caller running on the owning loop;
    /// any other context is a reported usage error, never a silent race.
    pub fn get(&self, current: u64) -> (r: Result<&T, AccessError>)
        ensures
            current == self.owner_id() ==> (r matches Ok(v) && *v == self.stored()),
            current != self.owner_id() ==> r == Err::<&T, AccessError>(AccessError::WrongLoop),
    {
        if current == self.owner {
            Ok(&self.value)
        } else {
            Err(AccessError::WrongLoop)
        }
    }

    /// Replaces the value, handing the old one back, only for a caller
    /// running on the owning loop.
    pub fn replace(&mut self, current: u64, value: T) -> (r: Result<T, AccessError>)
        ensures
            final(self).owner_id() == old(self).owner_id(),
            current == old(self).owner_id() ==> final(self).stored() == value && (r matches Ok(v)
                && v == old(self).stored()),
            current != old(self).owner_id() ==> final(self).stored() == old(self).stored() && r
                is Err,
    {
        if current == self.owner {
            let mut v = value;
            core::mem::swap(&mut v, &mut self.value);
            Ok(v)
        } else {
            Err(AccessError::WrongLoop)
        }
    }
}

} // verus!
