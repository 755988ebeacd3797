//! Scoped tokens for held exclusive-access grants.
//!
//! A [`LockGuard`] exists only after the registry acknowledged a successful
//! lock of a filter. Releasing it produces exactly one unlock order for that
//! filter: the explicit `unlock` path hands the order to the caller so the
//! outcome can be observed, and the end-of-scope path produces the same
//! order at most once, best effort, for guards that were discarded.

use vstd::prelude::*;

use crate::config::{clone_filter, filter_eq, InputFilter};

verus! {

/// A held exclusive-access grant over one device filter.
///
/// Use `unlock` to release it; discarding the guard instead must route
/// through `take_unlock_order` (once) so that the release is still ordered.
pub struct LockGuard {
    filter: InputFilter,
    /// Whether an unlock order has already been produced for this guard.
    released: bool,
}

impl LockGuard {
    pub closed spec fn spec_filter(self) -> InputFilter {
        self.filter
    }

    pub closed spec fn spec_released(self) -> bool {
        self.released
    }

    /// How many unlock orders a guard will still produce: one until an
    /// order has been taken, none afterwards.
    pub closed spec fn orders_owed(self) -> nat {
        if self.released {
            0
        } else {
            1
        }
    }

    /// A guard is created only once the registry has acknowledged the lock.
    pub fn new(filter: InputFilter) -> (g: LockGuard)
        ensures
            filter_eq(g.spec_filter(), filter),
            !g.spec_released(),
            g.orders_owed() == 1,
    {
        LockGuard { filter, released: false }
    }

    /// What one release attempt does to a guard: it is marked released,
    /// and an order comes out exactly when none had come out before.
    pub closed spec fn spec_take(g: LockGuard) -> (LockGuard, bool) {
        (LockGuard { released: true, ..g }, !g.released)
    }

    /// Produces the unlock order for this guard, at most once: the first
    /// call yields the guard's filter, every later call yields nothing.
    pub fn take_unlock_order(&mut self) -> (r: Option<InputFilter>)
        ensures
            *final(self) == LockGuard::spec_take(*old(self)).0,
            (r is Some) == LockGuard::spec_take(*old(self)).1,
            r matches Some(f) ==> filter_eq(f, old(self).spec_filter()),
            old(self).orders_owed() == final(self).orders_owed() + (if r is Some {
                1nat
            } else {
                0nat
            }),
    {
        if self.released {
            None
        } else {
            self.released = true;
            Some(clone_filter(&self.filter))
        }
    }

    /// Consumes the guard and returns the unlock order to submit; the
    /// caller sends it and observes the registry's answer. This is the one
    /// release path that can report errors, so it is the one to document.
    pub fn unlock(self) -> (r: InputFilter)
        requires
            !self.spec_released(),
        ensures
            filter_eq(r, self.spec_filter()),
    {
        let mut this = self;
        let order = this.take_unlock_order();
        match order {
            Some(f) => f,
            Option::None => {
                proof {
                    assert(false);
                }
                InputFilter { id: this.filter.id, names: Vec::new() }
            },
        }
    }

    /// Consumes a guard that is going out of scope without an explicit
    /// `unlock`: a best-effort unlock order comes out exactly when none was
    /// produced before, so every guard yields exactly one order in total.
    pub fn end_of_scope(self) -> (r: Option<InputFilter>)
        ensures
            self.spec_released() ==> r is None,
            !self.spec_released() ==> (r matches Some(f) && filter_eq(f, self.spec_filter())),
    {
        let mut this = self;
        this.take_unlock_order()
    }
}

/// However a guard is released — explicit `unlock` or discard at end of
/// scope — exactly one unlock order is produced: the first release attempt
/// yields the order, and a further attempt on the same guard yields none.
pub proof fn lemma_guard_unlocks_exactly_once(g: LockGuard)
    requires
        !g.spec_released(),
    ensures
        LockGuard::spec_take(g).1,
        !LockGuard::spec_take(LockGuard::spec_take(g).0).1,
{
}

} // verus!
