//! A bounded pool of database-connection handles.
//!
//! Each request checks one handle out for the duration of its unit of work
//! and gives it back on every exit path. The pool only tracks how many
//! handles are free; the handles themselves live outside the library.

use vstd::prelude::*;

verus! {

/// A bounded connection pool: `capacity` handles exist in all, of which
/// `available` are currently free.
pub struct Pool {
    capacity: usize,
    available: usize,
}

impl Pool {
    /// No more handles can be free than exist.
    pub open spec fn wf(&self) -> bool {
        self.spec_available() <= self.spec_capacity()
    }

    pub closed spec fn spec_capacity(&self) -> nat {
        self.capacity as nat
    }

    pub closed spec fn spec_available(&self) -> nat {
        self.available as nat
    }

    /// A fresh pool has all of its handles free.
    pub fn new(capacity: usize) -> (r: Pool)
        ensures
            r.wf(),
            r.spec_capacity() == capacity,
            r.spec_available() == capacity,
    {
        Pool { capacity, available: capacity }
    }

    /// Check one handle out. Returns `true` exactly when a handle was free;
    /// on `false` the pool is unchanged and the caller must report the
    /// service unavailable.
    pub fn acquire(&mut self) -> (r: bool)
        requires
            old(self).wf(),
        ensures
            final(self).wf(),
            final(self).spec_capacity() == old(self).spec_capacity(),
            r == (old(self).spec_available() > 0),
            r ==> final(self).spec_available() == old(self).spec_available() - 1,
            !r ==> *final(self) == *old(self),
    {
        if self.available > 0 {
            self.available = self.available - 1;
            true
        } else {
            false
        }
    }

    /// Give a checked-out handle back.
    pub fn release(&mut self)
        requires
            old(self).wf(),
            old(self).spec_available() < old(self).spec_capacity(),
        ensures
            final(self).wf(),
            final(self).spec_capacity() == old(self).spec_capacity(),
            final(self).spec_available() == old(self).spec_available() + 1,
    {
        self.available = self.available + 1;
    }
}

} // verus!
