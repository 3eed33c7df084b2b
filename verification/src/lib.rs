//! A pinned view over a set core.
//!
//! The library offers a [`HashSet`] set core together with a pinned view,
//! [`HashSetRef`], which couples the set with a reclamation guard for the
//! whole of a protection episode.  A view is obtained either by pinning the
//! current thread ([`HashSet::pin`]) or by attaching a guard the caller
//! already holds ([`HashSet::with_guard`]); the guard's provenance is fixed
//! for the lifetime of the view, and every operation of the view preserves
//! it.

mod guard;
mod laws;
mod set_core;
mod set_ref;

pub use guard::GuardRef;
pub use laws::insert_all;
pub use laws::lemma_compute_if_present_drops;
pub use laws::lemma_insert_then_contains;
pub use laws::lemma_observed_len_bounded;
pub use laws::lemma_pinned_views_agree;
pub use laws::lemma_remove_twice;
pub use laws::lemma_retain_force_drops_all;
pub use laws::lemma_retain_force_keeps_all;
pub use laws::lemma_take_leaves_no_equal;
pub use set_core::clone_keeps_value;
pub use set_core::HashSet;
pub use set_ref::HashSetRef;
