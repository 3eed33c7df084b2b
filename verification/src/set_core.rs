//! The set core: the container a pinned view delegates to.
//!
//! The core keeps its elements in insertion order with no element stored
//! twice; its abstract state is the set of stored elements.  All operations
//! that compare or copy elements are specified against logical equality, so
//! they ask the caller for `obeys_concrete_eq` (the element's `==` agrees
//! with logical equality) or [`clone_keeps_value`] (the element's `clone`
//! returns the value it was given).

use vstd::laws_eq::obeys_concrete_eq;
use vstd::pervasive::cloned;
use vstd::prelude::*;

verus! {

/// `T::clone` hands back the very value it was given.
///
/// Verified code can only relate a generic `clone` call to its argument
/// through the clause that `T`'s own implementation states; this predicate
/// says that the implementation keeps the value, as every well-behaved
/// `Clone` does.
pub open spec fn clone_keeps_value<T: Clone>() -> bool {
    forall|x: T, y: T| #[trigger] cloned::<T>(x, y) ==> x == y
}

/// The set core: a container of pairwise-distinct elements.
///
/// Writing to the core is only possible through a pinned view (see
/// [`crate::HashSetRef`]), so no element can be observed or replaced
/// without reclamation protection being held.
pub struct HashSet<T> {
    elems: Vec<T>,
}

impl<T> View for HashSet<T> {
    type V = Set<T>;

    closed spec fn view(&self) -> Set<T> {
        self.elems@.to_set()
    }
}

impl<T> HashSet<T> {
    /// No element is stored twice.
    pub closed spec fn wf(&self) -> bool {
        self.elems@.no_duplicates()
    }

    /// An empty set core.
    pub fn new() -> (r: HashSet<T>)
        ensures
            r.wf(),
            r@ == Set::<T>::empty(),
    {
        let r = HashSet { elems: Vec::new() };
        proof {
            assert(r.elems@.to_set() =~= Set::<T>::empty());
        }
        r
    }

    /// The number of elements stored.
    pub fn len(&self) -> (r: usize)
        requires
            self.wf(),
        ensures
            r == self@.len(),
    {
        proof {
            self.elems@.unique_seq_to_set();
        }
        self.elems.len()
    }

    /// Whether no element is stored.
    pub fn is_empty(&self) -> (r: bool)
        requires
            self.wf(),
        ensures
            r == (self@.len() == 0),
    {
        proof {
            self.elems@.unique_seq_to_set();
        }
        self.elems.is_empty()
    }
}

/// Equality of two values, decided by `T`'s own `==`.
fn eq_values<T: PartialEq>(a: &T, b: &T) -> (r: bool)
    requires
        obeys_concrete_eq::<T>(),
    ensures
        r == (*a == *b),
{
    proof {
        reveal(vstd::laws_eq::obeys_concrete_eq);
    }
    a.eq(b)
}

/// A copy of a value, taken by `T`'s own `clone`.
fn clone_value<T: Clone>(x: &T) -> (r: T)
    requires
        clone_keeps_value::<T>(),
    ensures
        r == *x,
{
    let r = x.clone();
    proof {
        assert(cloned::<T>(*x, r));
    }
    r
}

/// Removing the element at one position of a duplicate-free sequence
/// removes exactly that element from the set of its elements.
proof fn lemma_remove_at_distinct<T>(s: Seq<T>, i: int)
    requires
        s.no_duplicates(),
        0 <= i < s.len(),
    ensures
        s.remove(i).no_duplicates(),
        s.remove(i).to_set() == s.to_set().remove(s[i]),
{
    s.remove_ensures(i);
    let t = s.remove(i);
    assert forall|a: int, b: int| 0 <= a < b < t.len() implies t[a] != t[b] by {
        let a2: int = if a < i {
            a
        } else {
            a + 1
        };
        let b2: int = if b < i {
            b
        } else {
            b + 1
        };
        assert(t[a] == s[a2] && t[b] == s[b2]);
    }
    assert forall|x: T| t.to_set().contains(x) implies s.to_set().remove(s[i]).contains(x) by {
        let k = choose|k: int| 0 <= k < t.len() && t[k] == x;
        let k2: int = if k < i {
            k
        } else {
            k + 1
        };
        assert(s[k2] == x);
    }
    assert forall|x: T| s.to_set().remove(s[i]).contains(x) implies t.to_set().contains(x) by {
        let k = choose|k: int| 0 <= k < s.len() && s[k] == x;
        if k < i {
            assert(t[k] == x);
        } else {
            assert(t[k - 1] == x);
        }
    }
    assert(t.to_set() =~= s.to_set().remove(s[i]));
}

impl<T: PartialEq> HashSet<T> {
    /// The position of the element equal to `value`, if one is stored.
    fn index_of(&self, value: &T) -> (r: Option<usize>)
        requires
            obeys_concrete_eq::<T>(),
        ensures
            match r {
                Some(i) => i < self.elems@.len() && self.elems@[i as int] == *value,
                None => !self@.contains(*value),
            },
    {
        let mut i: usize = 0;
        while i < self.elems.len()
            invariant
                i <= self.elems@.len(),
                obeys_concrete_eq::<T>(),
                forall|j: int| 0 <= j < i ==> self.elems@[j] != *value,
            decreases self.elems@.len() - i,
        {
            if eq_values(&self.elems[i], value) {
                return Some(i);
            }
            i = i + 1;
        }
        None
    }

    /// Whether an element equal to `value` is stored.
    pub(crate) fn contains(&self, value: &T) -> (r: bool)
        requires
            self.wf(),
            obeys_concrete_eq::<T>(),
        ensures
            r == self@.contains(*value),
    {
        self.index_of(value).is_some()
    }

    /// Adds `value` unless an equal element is already stored; reports
    /// whether it was newly added.  An already-stored equal element is kept
    /// as it is.
    pub(crate) fn insert(&mut self, value: T) -> (r: bool)
        requires
            old(self).wf(),
            obeys_concrete_eq::<T>(),
        ensures
            final(self).wf(),
            r == !old(self)@.contains(value),
            final(self)@ == old(self)@.insert(value),
    {
        match self.index_of(&value) {
            Some(_) => {
                proof {
                    assert(old(self)@.insert(value) =~= old(self)@);
                }
                false
            },
            None => {
                proof {
                    assert(!self.elems@.contains(value));
                }
                self.elems.push(value);
                proof {
                    let pre = old(self).elems@;
                    pre.lemma_push_to_set_commute(value);
                    assert(final(self).elems@ == pre.push(value));
                    assert forall|i: int, j: int|
                        0 <= i < j < final(self).elems@.len() implies final(self).elems@[i]
                        != final(self).elems@[j] by {
                        if j < pre.len() {
                        } else {
                            assert(pre.contains(pre[i]));
                        }
                    }
                    assert(final(self)@ == old(self)@.insert(value));
                }
                true
            },
        }
    }

    /// Removes the element equal to `value`, if one is stored; reports
    /// whether one was.  Only the logical removal happens here; reclaiming
    /// the element's memory is the reclamation subsystem's business.
    pub(crate) fn remove(&mut self, value: &T) -> (r: bool)
        requires
            old(self).wf(),
            obeys_concrete_eq::<T>(),
        ensures
            final(self).wf(),
            r == old(self)@.contains(*value),
            final(self)@ == old(self)@.remove(*value),
    {
        match self.index_of(value) {
            Some(i) => {
                proof {
                    lemma_remove_at_distinct(self.elems@, i as int);
                    assert(self@.contains(*value));
                }
                let _ = self.elems.remove(i);
                true
            },
            None => {
                proof {
                    assert(old(self)@.remove(*value) =~= old(self)@);
                }
                false
            },
        }
    }

    /// Removes and returns the element equal to `value`, if one is stored.
    pub(crate) fn take(&mut self, value: &T) -> (r: Option<T>)
        requires
            old(self).wf(),
            obeys_concrete_eq::<T>(),
        ensures
            final(self).wf(),
            final(self)@ == old(self)@.remove(*value),
            r == if old(self)@.contains(*value) {
                Some(*value)
            } else {
                None::<T>
            },
    {
        match self.index_of(value) {
            Some(i) => {
                proof {
                    lemma_remove_at_distinct(self.elems@, i as int);
                    assert(self@.contains(*value));
                }
                let taken = self.elems.remove(i);
                Some(taken)
            },
            None => {
                proof {
                    assert(old(self)@.remove(*value) =~= old(self)@);
                }
                None
            },
        }
    }

    /// A reference to the stored element equal to `value`, if one is
    /// stored.
    pub(crate) fn get<'a>(&'a self, value: &T) -> (r: Option<&'a T>)
        requires
            self.wf(),
            obeys_concrete_eq::<T>(),
        ensures
            r == if self@.contains(*value) {
                Some(value)
            } else {
                None::<&T>
            },
    {
        match self.index_of(value) {
            Some(i) => {
                proof {
                    assert(self@.contains(*value));
                }
                Some(&self.elems[i])
            },
            None => None,
        }
    }
}

impl<T: PartialEq> HashSet<T> {
    /// Whether every stored element is also stored in `other`.
    pub(crate) fn is_subset_of(&self, other: &HashSet<T>) -> (r: bool)
        requires
            self.wf(),
            other.wf(),
            obeys_concrete_eq::<T>(),
        ensures
            r == self@.subset_of(other@),
    {
        let mut i: usize = 0;
        while i < self.elems.len()
            invariant
                self.wf(),
                other.wf(),
                obeys_concrete_eq::<T>(),
                i <= self.elems@.len(),
                forall|j: int| 0 <= j < i ==> other@.contains(#[trigger] self.elems@[j]),
            decreases self.elems@.len() - i,
        {
            if !other.contains(&self.elems[i]) {
                proof {
                    assert(self@.contains(self.elems@[i as int]));
                }
                return false;
            }
            i = i + 1;
        }
        proof {
            assert forall|x: T| self@.contains(x) implies other@.contains(x) by {
                let j = choose|j: int| 0 <= j < self.elems@.len() && self.elems@[j] == x;
                assert(other@.contains(self.elems@[j]));
            }
        }
        true
    }

    /// Whether this core and `other` store exactly the same elements,
    /// element-wise and independent of order.
    pub fn same_elements(&self, other: &HashSet<T>) -> (r: bool)
        requires
            self.wf(),
            other.wf(),
            obeys_concrete_eq::<T>(),
        ensures
            r == (self@ == other@),
    {
        let r = self.is_subset_of(other) && other.is_subset_of(self);
        proof {
            if r {
                assert(self@ =~= other@);
            }
        }
        r
    }
}

impl<T: PartialEq + Clone> HashSet<T> {
    /// If an element equal to `key` is stored, hands it to `remap` and
    /// applies the outcome: a new value replaces the element, no value
    /// removes it.  `remap` is never called when no equal element is
    /// stored.
    pub(crate) fn compute_if_present<F: FnOnce(&T) -> Option<T>>(
        &mut self,
        key: &T,
        remap: F,
    ) -> (r: Option<T>)
        requires
            old(self).wf(),
            obeys_concrete_eq::<T>(),
            clone_keeps_value::<T>(),
            old(self)@.contains(*key) ==> call_requires(remap, (key,)),
        ensures
            final(self).wf(),
            !old(self)@.contains(*key) ==> final(self)@ == old(self)@ && r == None::<T>,
            old(self)@.contains(*key) ==> exists|o: Option<T>|
                {
                    &&& #[trigger] call_ensures(remap, (key,), o)
                    &&& match o {
                        None => final(self)@ == old(self)@.remove(*key) && r == None::<T>,
                        Some(x) => final(self)@ == old(self)@.remove(*key).insert(x) && r == Some(
                            x,
                        ),
                    }
                },
    {
        match self.index_of(key) {
            None => None,
            Some(i) => {
                proof {
                    lemma_remove_at_distinct(self.elems@, i as int);
                    assert(self@.contains(*key));
                }
                let current = self.elems.remove(i);
                match remap(&current) {
                    None => None,
                    Some(replacement) => {
                        let ret = clone_value(&replacement);
                        let _ = self.insert(replacement);
                        Some(ret)
                    },
                }
            },
        }
    }
}

impl<T> HashSet<T> {
    /// Keeps exactly the elements the predicate approves of, calling it
    /// once on every stored element.
    pub(crate) fn retain<F: Fn(&T) -> bool>(&mut self, f: F)
        requires
            old(self).wf(),
            forall|x: T| old(self)@.contains(x) ==> #[trigger] call_requires(f, (&x,)),
        ensures
            final(self).wf(),
            forall|x: T| #[trigger]
                final(self)@.contains(x) ==> old(self)@.contains(x) && call_ensures(
                    f,
                    (&x,),
                    true,
                ),
            forall|x: T| #[trigger]
                old(self)@.contains(x) && !final(self)@.contains(x) ==> call_ensures(
                    f,
                    (&x,),
                    false,
                ),
    {
        let ghost orig = self.elems@;
        let mut kept: Vec<T> = Vec::new();
        proof {
            assert(orig.subrange(0, orig.len() as int) =~= orig);
        }
        while self.elems.len() > 0
            invariant
                orig.no_duplicates(),
                self.elems@ == orig.subrange(0, self.elems@.len() as int),
                self.elems@.len() <= orig.len(),
                kept@.no_duplicates(),
                forall|x: T| #[trigger]
                    kept@.contains(x) ==> orig.contains(x) && call_ensures(f, (&x,), true),
                forall|x: T| #[trigger]
                    kept@.contains(x) ==> exists|j: int|
                        self.elems@.len() <= j < orig.len() && orig[j] == x,
                forall|j: int|
                    self.elems@.len() <= j < orig.len() ==> kept@.contains(#[trigger] orig[j])
                        || call_ensures(f, (&orig[j],), false),
                forall|x: T| orig.contains(x) ==> #[trigger] call_requires(f, (&x,)),
            decreases self.elems@.len(),
        {
            let ghost n = self.elems@.len() as int;
            let x = self.elems.pop().unwrap();
            proof {
                assert(x == orig[n - 1]);
                assert(self.elems@ =~= orig.subrange(0, n - 1));
                assert(orig.contains(x));
            }
            if f(&x) {
                proof {
                    if kept@.contains(x) {
                        let j = choose|j: int| n <= j < orig.len() && orig[j] == x;
                        assert(orig[j] == orig[n - 1]);
                        assert(false);
                    }
                }
                kept.push(x);
                proof {
                    broadcast use vstd::seq_lib::lemma_seq_contains_after_push;
                }
            }
        }
        self.elems = kept;
        proof {
            assert(orig.subrange(0, 0) =~= Seq::<T>::empty());
            assert forall|x: T| #[trigger]
                old(self)@.contains(x) && !final(self)@.contains(x) implies call_ensures(
                f,
                (&x,),
                false,
            ) by {
                let j = choose|j: int| 0 <= j < orig.len() && orig[j] == x;
                assert(kept@.contains(orig[j]) || call_ensures(f, (&orig[j],), false));
            }
        }
    }

    /// Logically removes every element.
    pub(crate) fn clear(&mut self)
        ensures
            final(self).wf(),
            final(self)@ == Set::<T>::empty(),
    {
        self.elems.clear();
        proof {
            assert(final(self)@ =~= Set::<T>::empty());
        }
    }

    /// Asks the underlying storage for room for at least `additional` more
    /// elements; the stored elements do not change.
    pub(crate) fn reserve(&mut self, additional: usize)
        ensures
            final(self).wf() == old(self).wf(),
            final(self)@ == old(self)@,
    {
        self.elems.reserve(additional);
    }
}

impl<T: Clone> Clone for HashSet<T> {
    /// A copy of the core, element by element through `T`'s own `clone`.
    fn clone(&self) -> (r: Self)
        ensures
            clone_keeps_value::<T>() ==> r@ == self@ && r.wf() == self.wf(),
    {
        let r = HashSet { elems: self.elems.clone() };
        proof {
            if clone_keeps_value::<T>() {
                assert(r.elems@ =~= self.elems@);
            }
        }
        r
    }
}

impl<T: Clone> HashSet<T> {
    /// The stored elements, copied out in some order without duplicates.
    pub(crate) fn iter(&self) -> (r: Vec<T>)
        requires
            self.wf(),
            clone_keeps_value::<T>(),
        ensures
            r@.no_duplicates(),
            r@.to_set() == self@,
            r@.len() == self@.len(),
    {
        let mut out: Vec<T> = Vec::new();
        let mut i: usize = 0;
        while i < self.elems.len()
            invariant
                clone_keeps_value::<T>(),
                i <= self.elems@.len(),
                out@ == self.elems@.subrange(0, i as int),
            decreases self.elems@.len() - i,
        {
            out.push(clone_value(&self.elems[i]));
            proof {
                assert(out@ =~= self.elems@.subrange(0, i + 1 as int));
            }
            i = i + 1;
        }
        proof {
            assert(out@ == self.elems@) by {
                assert(out@ =~= self.elems@.subrange(0, self.elems@.len() as int));
                assert(self.elems@.subrange(0, self.elems@.len() as int) =~= self.elems@);
            }
            self.elems@.unique_seq_to_set();
        }
        out
    }
}

} // verus!
