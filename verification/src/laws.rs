//! Laws of the pinned view, stated over the abstract contents that the
//! operations' contracts speak of.
//!
//! The operations' postconditions describe each step exactly; the proof
//! functions here combine those descriptions into the guarantees a caller
//! of several operations in a row relies on.

use crate::set_ref::HashSetRef;
use vstd::prelude::*;

verus! {

/// Inserting a value makes it contained: after `insert(v)` on contents
/// `pre`, `contains(v)` holds — on the same view, and equally on any view
/// pinned later over the same contents, whose reads go by the same set.
/// On contents without `v`, `insert` also reports a new insertion.
pub proof fn lemma_insert_then_contains<T>(pre: Set<T>, v: T)
    ensures
        pre.insert(v).contains(v),
        !pre.contains(v) ==> pre.insert(v) =~= pre.union(set![v]),
{
}

/// Removal succeeds exactly once: on contents holding `v`, `remove(v)`
/// reports a removal (its result equals `pre.contains(v)`), and a second
/// `remove(v)` right after finds nothing, reports `false`, and changes
/// nothing.
pub proof fn lemma_remove_twice<T>(pre: Set<T>, v: T)
    requires
        pre.contains(v),
    ensures
        !pre.remove(v).contains(v),
        pre.remove(v).remove(v) == pre.remove(v),
{
    assert(pre.remove(v).remove(v) =~= pre.remove(v));
}

/// `take(v)` leaves the set without an equal element: whatever `take`
/// returned, `contains(v)` is false afterwards.  That the
/// previously-present element itself is returned is stated by `take`'s
/// own postcondition.
pub proof fn lemma_take_leaves_no_equal<T>(pre: Set<T>, v: T)
    ensures
        !pre.remove(v).contains(v),
        pre.contains(v) ==> pre.remove(v).len() == pre.len() - 1 || !pre.finite(),
{
}

/// A remapping function that never yields a value turns
/// `compute_if_present` into removal: from the outcome clause of
/// `compute_if_present` on contents holding `key`, the call returned
/// nothing and the contents lost exactly `key`.  (That the function is
/// not invoked at all when no matching element exists is part of
/// `compute_if_present`'s own contract: nothing changes, nothing is
/// returned, and the function's precondition is never demanded there.)
pub proof fn lemma_compute_if_present_drops<T, F: FnOnce(&T) -> Option<T>>(
    f: F,
    key: T,
    pre: Set<T>,
    post: Set<T>,
    r: Option<T>,
)
    requires
        pre.contains(key),
        forall|o: Option<T>| #[trigger] call_ensures(f, (&key,), o) ==> o is None,
        exists|o: Option<T>|
            {
                &&& #[trigger] call_ensures(f, (&key,), o)
                &&& match o {
                    None => post == pre.remove(key) && r == None::<T>,
                    Some(x) => post == pre.remove(key).insert(x) && r == Some(x),
                }
            },
    ensures
        post == pre.remove(key),
        r == None::<T>,
        !post.contains(key),
{
    let o = choose|o: Option<T>|
        {
            &&& #[trigger] call_ensures(f, (&key,), o)
            &&& match o {
                None => post == pre.remove(key) && r == None::<T>,
                Some(x) => post == pre.remove(key).insert(x) && r == Some(x),
            }
        };
    assert(o is None);
}

/// `retain_force` with a predicate that approves everything changes
/// nothing: from the contract of `retain_force` — kept elements were
/// approved, dropped elements were rejected — and a predicate that can
/// only answer `true`, the contents after equal the contents before,
/// element count included.
pub proof fn lemma_retain_force_keeps_all<T, F: Fn(&T) -> bool>(f: F, pre: Set<T>, post: Set<T>)
    requires
        forall|x: T, b: bool| #[trigger] call_ensures(f, (&x,), b) ==> b,
        forall|x: T| #[trigger] post.contains(x) ==> pre.contains(x) && call_ensures(f, (&x,), true),
        forall|x: T| #[trigger] pre.contains(x) && !post.contains(x) ==> call_ensures(f, (&x,), false),
    ensures
        post == pre,
{
    assert forall|x: T| pre.contains(x) implies post.contains(x) by {
        if !post.contains(x) {
            assert(call_ensures(f, (&x,), false));
        }
    }
    assert(post =~= pre);
}

/// `retain_force` with a predicate that rejects everything empties the
/// set: a predicate that can only answer `false` leaves nothing that the
/// contract lets stay.
pub proof fn lemma_retain_force_drops_all<T, F: Fn(&T) -> bool>(f: F, pre: Set<T>, post: Set<T>)
    requires
        forall|x: T, b: bool| #[trigger] call_ensures(f, (&x,), b) ==> !b,
        forall|x: T| #[trigger] post.contains(x) ==> pre.contains(x) && call_ensures(f, (&x,), true),
    ensures
        post == Set::<T>::empty(),
{
    assert forall|x: T| !post.contains(x) by {
        if post.contains(x) {
            assert(call_ensures(f, (&x,), true));
        }
    }
    assert(post =~= Set::<T>::empty());
}

/// Two views over the same contents agree: with no mutation between, two
/// views pinned on the same set core report the same length and the same
/// membership, whichever guards they hold.
pub proof fn lemma_pinned_views_agree<'a, 'b, T>(a: &HashSetRef<'a, T>, b: &HashSetRef<'b, T>)
    requires
        a@ == b@,
    ensures
        a@.len() == b@.len(),
        forall|x: T| a@.contains(x) == b@.contains(x),
{
}

/// The contents reached from `base` by inserting the values of `vs`, one
/// after the other.
pub open spec fn insert_all<T>(base: Set<T>, vs: Seq<T>) -> Set<T>
    decreases vs.len(),
{
    if vs.len() == 0 {
        base
    } else {
        insert_all(base.insert(vs[0]), vs.drop_first())
    }
}

/// What an observer of a set under concurrent insertion can see: while
/// one caller inserts the values of `vs` into an initially empty core,
/// the size read by any other view is the size after some prefix of
/// those insertions — at least `0` and at most `vs.len()`, never more.
pub proof fn lemma_observed_len_bounded<T>(vs: Seq<T>, k: int)
    requires
        0 <= k <= vs.len(),
    ensures
        insert_all(Set::<T>::empty(), vs.take(k)).finite(),
        insert_all(Set::<T>::empty(), vs.take(k)).len() <= k,
{
    lemma_insert_all_len(Set::<T>::empty(), vs.take(k));
}

/// Inserting the values of `vs` grows a finite set by at most `vs.len()`
/// elements.
proof fn lemma_insert_all_len<T>(base: Set<T>, vs: Seq<T>)
    requires
        base.finite(),
    ensures
        insert_all(base, vs).finite(),
        insert_all(base, vs).len() <= base.len() + vs.len(),
    decreases vs.len(),
{
    if vs.len() != 0 {
        lemma_insert_all_len(base.insert(vs[0]), vs.drop_first());
    }
}

} // verus!
