use nonempty_containers::{NESet, NonEmptyError};
use std::collections::HashSet;

#[test]
fn set_new_scenario() {
    let s = NESet::new(42, vec![1, 2, 3]);
    assert_eq!(s.len(), 4);
    assert!(s.contains(&42));
    assert!(s.contains(&1));
    assert!(s.contains(&2));
    assert!(s.contains(&3));
    assert!(!s.contains(&7));
}

#[test]
fn set_new_deduplicates() {
    let s = NESet::new(1, vec![1, 1, 2]);
    assert_eq!(s.len(), 2);
    assert!(s.contains(&1));
    assert!(s.contains(&2));
}

#[test]
fn set_singleton() {
    let s = NESet::singleton(9);
    assert_eq!(s.len(), 1);
    assert!(s.contains(&9));
}

#[test]
fn set_insert_semantics() {
    let mut s = NESet::singleton(1);
    assert!(s.insert(2));
    assert!(!s.insert(2));
    assert_eq!(s.len(), 2);
}

#[test]
fn set_remove_protects_singleton() {
    let mut s = NESet::singleton(7);
    assert!(!s.remove(&7));
    assert_eq!(s.len(), 1);
    assert!(s.contains(&7));
}

#[test]
fn set_remove_present() {
    let mut s = NESet::new(1, vec![2]);
    assert!(s.remove(&1));
    assert_eq!(s.len(), 1);
    assert!(!s.contains(&1));
    assert!(s.contains(&2));
}

#[test]
fn set_remove_absent() {
    let mut s = NESet::new(1, vec![2]);
    assert!(!s.remove(&3));
    assert_eq!(s.len(), 2);
}

#[test]
fn set_from_empty_fails() {
    let r = NESet::from(HashSet::<u32>::new());
    assert!(matches!(r, Err(NonEmptyError::Empty)));
}

#[test]
fn set_from_nonempty_succeeds() {
    let mut h = HashSet::new();
    h.insert(5);
    h.insert(6);
    let s = NESet::from(h).unwrap();
    assert_eq!(s.len(), 2);
    assert!(s.contains(&5));
}

#[test]
fn set_round_trip() {
    let s = NESet::new(42, vec![1, 2, 3]);
    let h: HashSet<i32> = s.clone().into_set();
    let back = NESet::from(h).unwrap();
    assert_eq!(back.clone().into_set(), s.into_set());
}

#[test]
fn set_to_vec_contents() {
    let s = NESet::new(3, vec![1, 2]);
    let mut values: Vec<i32> = s.to_vec().into_iter().copied().collect();
    values.sort();
    assert_eq!(values, vec![1, 2, 3]);
}

#[test]
fn set_to_vec_stable_for_unmodified_instance() {
    let s = NESet::new(3, vec![1, 2, 9, 17]);
    assert_eq!(s.to_vec(), s.to_vec());
}

#[test]
fn set_is_empty_always_false() {
    let mut s = NESet::singleton(1);
    assert!(!s.is_empty());
    s.remove(&1);
    assert!(!s.is_empty());
    assert_eq!(s.len(), 1);
}

#[test]
fn set_privileged_constructor() {
    let mut h = HashSet::new();
    h.insert(8);
    let s = NESet::__from_set_unsafe(h);
    assert_eq!(s.len(), 1);
    assert!(s.contains(&8));
}

#[test]
fn set_invariant_preserved() {
    let mut s = NESet::new(1, vec![2, 3]);
    assert!(s.len() >= 1);
    s.insert(4);
    assert!(s.len() >= 1);
    for x in 0..6 {
        s.remove(&x);
        assert!(s.len() >= 1);
    }
    assert_eq!(s.len(), 1);
}
