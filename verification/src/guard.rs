//! Reclamation guards and their provenance.
//!
//! A guard keeps the memory-reclamation epoch of the current thread open;
//! while one is held, garbage produced by concurrent removals is not freed.
//! A [`GuardRef`] records whether a view owns the guard it holds (it pinned
//! the thread itself, and unpinning happens when the view is dropped) or
//! merely borrows one whose lifetime the caller manages.

use vstd::prelude::*;

verus! {

#[verifier::external_type_specification]
#[verifier::external_body]
pub struct ExGuard(crossbeam_epoch::Guard);

/// Relies on `crossbeam_epoch::pin`: pins the current thread against the
/// default collector and returns the guard that keeps the reclamation epoch
/// open until the guard is dropped.
#[verifier::external_body]
pub(crate) fn pin_current_thread() -> crossbeam_epoch::Guard {
    crossbeam_epoch::pin()
}

/// The guard held by a pinned view: either owned by the view, which pinned
/// the current thread itself and releases the protection when dropped, or
/// borrowed from the caller, who controls the protection's lifetime.
pub enum GuardRef<'g> {
    /// The view pinned the thread itself; dropping the variant unpins it.
    Owned(crossbeam_epoch::Guard),
    /// The caller supplied the guard; dropping the variant releases nothing.
    Ref(&'g crossbeam_epoch::Guard),
}

impl<'g> GuardRef<'g> {
    /// Whether the protection behind this guard is owned by its holder.
    pub open spec fn is_owned(&self) -> bool {
        self is Owned
    }

    /// A guard of the same provenance for a second holder.  An owned guard
    /// is never duplicated: the thread is pinned once more, so the copy
    /// carries its own protection and the two can be dropped in any order.
    pub(crate) fn duplicate(&self) -> (r: GuardRef<'g>)
        ensures
            r.is_owned() == self.is_owned(),
    {
        match self {
            GuardRef::Owned(_) => GuardRef::Owned(pin_current_thread()),
            GuardRef::Ref(g) => GuardRef::Ref(g),
        }
    }
}

} // verus!
