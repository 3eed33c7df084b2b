use pinset::HashSet;

fn pinned_with(vals: &[u64]) -> pinset::HashSetRef<'static, u64> {
    let mut view = HashSet::new().pin();
    for &x in vals {
        view.insert(x);
    }
    view
}

fn sorted_elements(view: &pinset::HashSetRef<'_, u64>) -> Vec<u64> {
    let mut elems = view.iter();
    elems.sort();
    elems
}

#[test]
fn insert_new_value_reports_true_and_contains_it() {
    let mut view = HashSet::new().pin();
    assert!(view.insert(42));
    assert!(view.contains(&42));
}

#[test]
fn insert_is_visible_from_a_fresh_pin() {
    let mut view = HashSet::new().pin();
    assert!(view.insert(42));
    let set = view.unpin();
    let fresh = set.pin();
    assert!(fresh.contains(&42));
}

#[test]
fn insert_duplicate_reports_false_and_keeps_one_element() {
    let mut view = pinned_with(&[7]);
    assert!(!view.insert(7));
    assert_eq!(view.len(), 1);
}

#[test]
fn remove_succeeds_exactly_once() {
    let mut view = pinned_with(&[1, 2]);
    assert!(view.remove(&1));
    assert!(!view.remove(&1));
    assert!(!view.contains(&1));
    assert!(view.contains(&2));
}

#[test]
fn remove_absent_reports_false() {
    let mut view = pinned_with(&[1]);
    assert!(!view.remove(&9));
    assert_eq!(view.len(), 1);
}

#[test]
fn take_returns_the_element_and_leaves_no_equal_one() {
    let mut view = pinned_with(&[5, 6]);
    assert_eq!(view.take(&5), Some(5));
    assert!(!view.contains(&5));
    assert_eq!(view.take(&5), None);
    assert_eq!(view.len(), 1);
}

#[test]
fn get_hands_back_the_stored_element() {
    let view = pinned_with(&[3]);
    assert_eq!(view.get(&3), Some(&3));
    assert_eq!(view.get(&4), None);
}

#[test]
fn compute_if_present_skips_the_function_when_nothing_matches() {
    let called = std::cell::Cell::new(false);
    let mut view = pinned_with(&[1]);
    let r = view.compute_if_present(&9, |_x: &u64| {
        called.set(true);
        None
    });
    assert_eq!(r, None);
    assert!(!called.get());
    assert_eq!(view.len(), 1);
}

#[test]
fn compute_if_present_with_no_yield_removes_the_entry() {
    let mut view = pinned_with(&[1, 2]);
    let r = view.compute_if_present(&1, |_x: &u64| None);
    assert_eq!(r, None);
    assert!(!view.contains(&1));
    assert_eq!(view.len(), 1);
}

#[test]
fn compute_if_present_with_a_yield_replaces_the_entry() {
    let mut view = pinned_with(&[10, 20]);
    let r = view.compute_if_present(&10, |x: &u64| Some(x + 1));
    assert_eq!(r, Some(11));
    assert!(!view.contains(&10));
    assert!(view.contains(&11));
    assert!(view.contains(&20));
    assert_eq!(view.len(), 2);
}

#[test]
fn retain_force_with_always_true_keeps_every_element() {
    let mut view = pinned_with(&[1, 2, 3]);
    view.retain_force(|_x: &u64| true);
    assert_eq!(view.len(), 3);
    assert_eq!(sorted_elements(&view), vec![1, 2, 3]);
}

#[test]
fn retain_force_with_always_false_empties_the_set() {
    let mut view = pinned_with(&[1, 2, 3]);
    view.retain_force(|_x: &u64| false);
    assert!(view.is_empty());
}

#[test]
fn retain_keeps_exactly_the_approved_elements() {
    let mut view = pinned_with(&[1, 2, 3, 4, 5]);
    view.retain(|x: &u64| x % 2 == 0);
    assert_eq!(sorted_elements(&view), vec![2, 4]);
}

#[test]
fn two_pins_over_the_same_core_agree() {
    let view = pinned_with(&[1, 2, 3]);
    let len_a = view.len();
    let elems_a = sorted_elements(&view);
    let set = view.unpin();
    let fresh = set.pin();
    assert_eq!(fresh.len(), len_a);
    assert_eq!(sorted_elements(&fresh), elems_a);
}

#[test]
fn views_with_equal_elements_compare_equal_whatever_their_guards() {
    let view_a = pinned_with(&[1, 2, 3]);
    let view_b = pinned_with(&[3, 2, 1]);
    let view_c = pinned_with(&[1, 2]);
    assert!(view_a.same_elements(&view_b));
    assert!(!view_a.same_elements(&view_c));
}

#[test]
fn view_compares_with_a_bare_set() {
    let view = pinned_with(&[8, 9]);
    let mut other = HashSet::new().pin();
    other.insert(9);
    other.insert(8);
    let bare = other.unpin();
    assert!(view.same_elements_as_set(&bare));
}

#[test]
fn bare_sets_compare_element_wise() {
    let a = pinned_with(&[1, 2]).unpin();
    let b = pinned_with(&[2, 1]).unpin();
    let c = pinned_with(&[2, 3]).unpin();
    assert!(a.same_elements(&b));
    assert!(!a.same_elements(&c));
}

#[test]
fn cloning_a_view_then_dropping_the_original_keeps_reads_safe() {
    let mut view = pinned_with(&[5]);
    view.insert(6);
    let copy = view.clone();
    drop(view);
    assert_eq!(copy.get(&5), Some(&5));
    assert_eq!(copy.get(&6), Some(&6));
    assert_eq!(copy.len(), 2);
}

#[test]
fn observer_sizes_stay_within_the_number_of_insertions() {
    let mut view = HashSet::new().pin();
    let mut seen: Vec<usize> = vec![view.len()];
    for &x in &[1u64, 2, 3] {
        view.insert(x);
        seen.push(view.len());
    }
    for (k, &n) in seen.iter().enumerate() {
        assert!(n <= 3);
        assert!(n <= k);
    }
    assert_eq!(view.len(), 3);
}

#[test]
fn a_borrowed_guard_backs_a_view_without_owning_protection() {
    let guard = crossbeam_epoch::pin();
    let mut set = HashSet::new().pin();
    set.insert(11);
    let bare = set.unpin();
    let mut view = bare.with_guard(&guard);
    assert!(view.contains(&11));
    assert!(view.insert(12));
    assert_eq!(view.len(), 2);
    let bare = view.unpin();
    drop(guard);
    assert!(bare.pin().contains(&12));
}

#[test]
fn clear_logically_removes_everything() {
    let mut view = pinned_with(&[1, 2, 3]);
    view.clear();
    assert!(view.is_empty());
    assert!(!view.contains(&1));
}

#[test]
fn reserve_changes_no_elements() {
    let mut view = pinned_with(&[4, 5]);
    view.reserve(100);
    assert_eq!(sorted_elements(&view), vec![4, 5]);
}

#[test]
fn iter_yields_each_element_exactly_once() {
    let view = pinned_with(&[9, 7, 8, 7]);
    let elems = sorted_elements(&view);
    assert_eq!(elems, vec![7, 8, 9]);
}

#[test]
fn an_empty_set_reports_itself_empty() {
    let view = HashSet::<u64>::new().pin();
    assert!(view.is_empty());
    assert_eq!(view.len(), 0);
    assert!(!view.contains(&0));
    assert_eq!(view.iter(), Vec::<u64>::new());
}
