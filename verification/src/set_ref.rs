//! The pinned view: a set core coupled with a reclamation guard.
//!
//! A [`HashSetRef`] is obtained from [`HashSet::pin`] (the view pins the
//! current thread itself and owns the guard) or [`HashSet::with_guard`]
//! (the caller supplies the guard and keeps its lifetime).  For the whole
//! life of the view the guard's provenance is fixed and the protection is
//! held without interruption: no operation releases and re-acquires it,
//! which every mutating operation's contract records by keeping
//! [`HashSetRef::owns_guard`] unchanged.  All operations delegate to the
//! set core while the guard is held.

use crate::guard::pin_current_thread;
use crate::guard::GuardRef;
use crate::set_core::clone_keeps_value;
use crate::set_core::HashSet;
use vstd::laws_eq::obeys_concrete_eq;
use vstd::prelude::*;

verus! {

/// A reference to a [`HashSet`] whose reclamation protection is held for
/// as long as the view lives.
pub struct HashSetRef<'g, T> {
    set: HashSet<T>,
    guard: GuardRef<'g>,
}

impl<'g, T> View for HashSetRef<'g, T> {
    type V = Set<T>;

    closed spec fn view(&self) -> Set<T> {
        self.set@
    }
}

impl<T> HashSet<T> {
    /// A view of this set with the current thread pinned.  The protection
    /// is owned by the view: it lasts until the view is dropped, and while
    /// it lasts, garbage generated by the set is not collected.
    pub fn pin(self) -> (r: HashSetRef<'static, T>)
        ensures
            r@ == self@,
            r.wf() == self.wf(),
            r.owns_guard(),
    {
        HashSetRef { guard: GuardRef::Owned(pin_current_thread()), set: self }
    }

    /// A view of this set under a guard the caller already holds.  The
    /// view releases nothing when dropped: the caller controls the
    /// protection's lifetime, which outlives the view by construction.
    pub fn with_guard<'g>(self, guard: &'g crossbeam_epoch::Guard) -> (r: HashSetRef<'g, T>)
        ensures
            r@ == self@,
            r.wf() == self.wf(),
            !r.owns_guard(),
    {
        HashSetRef { set: self, guard: GuardRef::Ref(guard) }
    }
}

impl<'g, T> HashSetRef<'g, T> {
    /// No element is stored twice in the underlying core.
    pub closed spec fn wf(&self) -> bool {
        self.set.wf()
    }

    /// Whether the view owns its protection (it pinned the thread itself)
    /// rather than borrowing a caller-supplied guard.
    pub closed spec fn owns_guard(&self) -> bool {
        self.guard.is_owned()
    }

    /// Ends the protection episode and hands the set core back.  For a
    /// view that owns its guard this unpins the thread, so garbage held
    /// back during the episode may be reclaimed.
    pub fn unpin(self) -> (r: HashSet<T>)
        ensures
            r@ == self@,
            r.wf() == self.wf(),
    {
        self.set
    }

    /// The number of entries in the set.
    pub fn len(&self) -> (r: usize)
        requires
            self.wf(),
        ensures
            r == self@.len(),
    {
        self.set.len()
    }

    /// Whether the set holds no entry.
    pub fn is_empty(&self) -> (r: bool)
        requires
            self.wf(),
        ensures
            r == (self@.len() == 0),
    {
        self.set.is_empty()
    }

    /// Asks the set core for room for at least `additional` more
    /// elements; never shrinks, never changes the elements.
    pub fn reserve(&mut self, additional: usize)
        requires
            old(self).wf(),
        ensures
            final(self).wf(),
            final(self)@ == old(self)@,
            final(self).owns_guard() == old(self).owns_guard(),
    {
        self.set.reserve(additional);
    }

    /// Logically removes all elements; reclaiming their memory is
    /// deferred until no guard protects them any more.
    pub fn clear(&mut self)
        ensures
            final(self).wf(),
            final(self)@ == Set::<T>::empty(),
            final(self).owns_guard() == old(self).owns_guard(),
    {
        self.set.clear();
    }
}

impl<'g, T: PartialEq> HashSetRef<'g, T> {
    /// Whether an element equal to `value` is in the set.
    pub fn contains(&self, value: &T) -> (r: bool)
        requires
            self.wf(),
            obeys_concrete_eq::<T>(),
        ensures
            r == self@.contains(*value),
    {
        self.set.contains(value)
    }

    /// A reference to the stored element equal to `value`, if present.
    /// The reference is valid only while this view — and with it the
    /// guard — lives.
    pub fn get<'a>(&'a self, value: &T) -> (r: Option<&'a T>)
        requires
            self.wf(),
            obeys_concrete_eq::<T>(),
        ensures
            r == if self@.contains(*value) {
                Some(value)
            } else {
                None::<&T>
            },
    {
        self.set.get(value)
    }

    /// Inserts `value` unless an equal element is already present;
    /// reports whether it was newly inserted.  A present equal element is
    /// left exactly as it was: no replace-on-insert.
    pub fn insert(&mut self, value: T) -> (r: bool)
        requires
            old(self).wf(),
            obeys_concrete_eq::<T>(),
        ensures
            final(self).wf(),
            r == !old(self)@.contains(value),
            final(self)@ == old(self)@.insert(value),
            final(self).owns_guard() == old(self).owns_guard(),
    {
        self.set.insert(value)
    }

    /// Removes the element equal to `value`, if present; reports whether
    /// one was.  Physical reclamation is deferred to the reclamation
    /// subsystem.
    pub fn remove(&mut self, value: &T) -> (r: bool)
        requires
            old(self).wf(),
            obeys_concrete_eq::<T>(),
        ensures
            final(self).wf(),
            r == old(self)@.contains(*value),
            final(self)@ == old(self)@.remove(*value),
            final(self).owns_guard() == old(self).owns_guard(),
    {
        self.set.remove(value)
    }

    /// Removes the element equal to `value` and returns it, if present.
    /// Returning the removed element is sound because the view's
    /// protection is still held.
    pub fn take(&mut self, value: &T) -> (r: Option<T>)
        requires
            old(self).wf(),
            obeys_concrete_eq::<T>(),
        ensures
            final(self).wf(),
            final(self)@ == old(self)@.remove(*value),
            r == if old(self)@.contains(*value) {
                Some(*value)
            } else {
                None::<T>
            },
            final(self).owns_guard() == old(self).owns_guard(),
    {
        self.set.take(value)
    }

    /// Whether this view and `other` see sets with exactly the same
    /// elements, each side visited under its own guard.
    pub fn same_elements<'h>(&self, other: &HashSetRef<'h, T>) -> (r: bool)
        requires
            self.wf(),
            other.wf(),
            obeys_concrete_eq::<T>(),
        ensures
            r == (self@ == other@),
    {
        self.set.same_elements(&other.set)
    }

    /// Whether this view sees exactly the elements of the bare set
    /// `other`, which is visited without pinning: it is not being mutated
    /// while it is compared.
    pub fn same_elements_as_set(&self, other: &HashSet<T>) -> (r: bool)
        requires
            self.wf(),
            other.wf(),
            obeys_concrete_eq::<T>(),
        ensures
            r == (self@ == other@),
    {
        self.set.same_elements(other)
    }
}

impl<'g, T: PartialEq + Clone> HashSetRef<'g, T> {
    /// If an element equal to `key` is present, hands it to `remap`; a
    /// value returned by `remap` replaces the element and a copy of it is
    /// returned, no value removes the element.  When no equal element is
    /// present, nothing changes, nothing is returned, and `remap` is not
    /// invoked — its precondition is only demanded where a match exists.
    pub fn compute_if_present<F: FnOnce(&T) -> Option<T>>(&mut self, key: &T, remap: F) -> (r:
        Option<T>)
        requires
            old(self).wf(),
            obeys_concrete_eq::<T>(),
            clone_keeps_value::<T>(),
            old(self)@.contains(*key) ==> call_requires(remap, (key,)),
        ensures
            final(self).wf(),
            final(self).owns_guard() == old(self).owns_guard(),
            !old(self)@.contains(*key) ==> final(self)@ == old(self)@ && r == None::<T>,
            old(self)@.contains(*key) ==> exists|o: Option<T>|
                {
                    &&& #[trigger] call_ensures(remap, (key,), o)
                    &&& match o {
                        None => final(self)@ == old(self)@.remove(*key) && r == None::<T>,
                        Some(x) => final(self)@ == old(self)@.remove(*key).insert(x) && r == Some(
                            x,
                        ),
                    }
                },
    {
        self.set.compute_if_present(key, remap)
    }
}

impl<'g, T: Clone> HashSetRef<'g, T> {
    /// The elements, copied out in arbitrary order, one entry per
    /// element.  The copies stay valid however long the view lives.
    pub fn iter(&self) -> (r: Vec<T>)
        requires
            self.wf(),
            clone_keeps_value::<T>(),
        ensures
            r@.no_duplicates(),
            r@.to_set() == self@,
            r@.len() == self@.len(),
    {
        self.set.iter()
    }
}

impl<'g, T> HashSetRef<'g, T> {
    /// Keeps exactly the elements `f` approves of.  The cheaper variant:
    /// under concurrent mutation its consistency may be weaker; on this
    /// core it evaluates `f` once per element, as the forced variant
    /// does.
    pub fn retain<F: Fn(&T) -> bool>(&mut self, f: F)
        requires
            old(self).wf(),
            forall|x: T| old(self)@.contains(x) ==> #[trigger] call_requires(f, (&x,)),
        ensures
            final(self).wf(),
            final(self).owns_guard() == old(self).owns_guard(),
            forall|x: T| #[trigger]
                final(self)@.contains(x) ==> old(self)@.contains(x) && call_ensures(
                    f,
                    (&x,),
                    true,
                ),
            forall|x: T| #[trigger]
                old(self)@.contains(x) && !final(self)@.contains(x) ==> call_ensures(
                    f,
                    (&x,),
                    false,
                ),
    {
        self.set.retain(f);
    }

    /// Keeps exactly the elements `f` approves of, with the guarantee
    /// that every element present at the start of the call is evaluated
    /// exactly once.  The stronger, costlier variant of [`Self::retain`].
    pub fn retain_force<F: Fn(&T) -> bool>(&mut self, f: F)
        requires
            old(self).wf(),
            forall|x: T| old(self)@.contains(x) ==> #[trigger] call_requires(f, (&x,)),
        ensures
            final(self).wf(),
            final(self).owns_guard() == old(self).owns_guard(),
            forall|x: T| #[trigger]
                final(self)@.contains(x) ==> old(self)@.contains(x) && call_ensures(
                    f,
                    (&x,),
                    true,
                ),
            forall|x: T| #[trigger]
                old(self)@.contains(x) && !final(self)@.contains(x) ==> call_ensures(
                    f,
                    (&x,),
                    false,
                ),
    {
        self.set.retain(f);
    }
}

impl<'g, T: Clone> Clone for HashSetRef<'g, T> {
    /// Duplicates the view.  The set's elements are copied, and the copy
    /// holds protection of the same provenance as the original: a view
    /// that owns its guard pins the thread once more, so original and
    /// copy each carry their own protection and may be dropped in any
    /// order.
    fn clone(&self) -> (r: Self)
        ensures
            r.owns_guard() == self.owns_guard(),
            clone_keeps_value::<T>() ==> r@ == self@ && r.wf() == self.wf(),
    {
        HashSetRef { set: self.set.clone(), guard: self.guard.duplicate() }
    }
}

} // verus!
