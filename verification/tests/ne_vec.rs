use nonempty_containers::{NEVec, NonEmptyError};
use std::collections::VecDeque;

#[test]
fn vec_new_scenario() {
    let v = NEVec::new(1, vec![2, 3]);
    assert_eq!(v.len(), 3);
    assert_eq!(*v.head(), 1);
    assert_eq!(*v.last(), 3);
    assert_eq!(v.tail(), vec![&2, &3]);
    assert_eq!(v.init(), vec![&1, &2]);
}

#[test]
fn vec_head_last_empty_tail() {
    let v = NEVec::new(7, Vec::new());
    assert_eq!(*v.head(), 7);
    assert_eq!(*v.last(), 7);
    assert_eq!(v.len(), 1);
    let w = NEVec::new(1, vec![2, 3]);
    assert_eq!(*w.last(), 3);
}

#[test]
fn vec_singleton() {
    let v = NEVec::singleton(42);
    assert_eq!(v.len(), 1);
    assert_eq!(*v.head(), 42);
    assert_eq!(*v.last(), 42);
    assert!(v.tail().is_empty());
    assert!(v.init().is_empty());
}

#[test]
fn vec_singleton_pop_front_protected() {
    let mut v = NEVec::singleton(5);
    assert_eq!(v.pop_front(), Err(NonEmptyError::AlreadySingleton));
    assert_eq!(v.len(), 1);
    assert_eq!(*v.head(), 5);
}

#[test]
fn vec_singleton_pop_back_protected() {
    let mut v = NEVec::singleton(5);
    assert_eq!(v.pop_back(), Err(NonEmptyError::AlreadySingleton));
    assert_eq!(v.len(), 1);
    assert_eq!(*v.last(), 5);
}

#[test]
fn vec_pop_values() {
    let mut v = NEVec::new(1, vec![2, 3]);
    assert_eq!(v.pop_front(), Ok(1));
    assert_eq!(v.pop_back(), Ok(3));
    assert_eq!(v.len(), 1);
    assert_eq!(*v.head(), 2);
    assert_eq!(v.pop_front(), Err(NonEmptyError::AlreadySingleton));
    assert_eq!(v.pop_back(), Err(NonEmptyError::AlreadySingleton));
    assert_eq!(v.len(), 1);
}

#[test]
fn vec_from_vec_empty_fails() {
    let r = NEVec::from_vec(Vec::<u32>::new());
    assert_eq!(r, Err(NonEmptyError::Empty));
}

#[test]
fn vec_from_vec_nonempty_succeeds() {
    let v = NEVec::from_vec(vec![42]).unwrap();
    assert_eq!(v.len(), 1);
    assert_eq!(*v.head(), 42);
    let w = NEVec::from_vec(vec![1, 2, 3]).unwrap();
    assert_eq!(w.into_vec(), vec![1, 2, 3]);
}

#[test]
fn vec_from_deque() {
    assert!(NEVec::from_deque(VecDeque::from(vec![42])).is_ok());
    assert_eq!(
        NEVec::from_deque(VecDeque::<u32>::new()),
        Err(NonEmptyError::Empty)
    );
}

#[test]
fn vec_round_trip() {
    let v = NEVec::new(1, vec![2, 3]);
    let w = NEVec::from_vec(v.clone().into_vec()).unwrap();
    assert_eq!(v, w);
    let d = NEVec::from_deque(v.clone().into_deque()).unwrap();
    assert_eq!(v, d);
}

#[test]
fn vec_push_front_back() {
    let mut v = NEVec::singleton(2);
    v.push_front(1);
    v.push_back(3);
    assert_eq!(v.len(), 3);
    assert_eq!(v.iter(), vec![&1, &2, &3]);
}

#[test]
fn vec_as_slice() {
    let mut v = NEVec::new(1, vec![2, 3]);
    v.push_front(0);
    assert_eq!(v.as_slice(), &[0, 1, 2, 3]);
    assert_eq!(v.len(), 4);
}

#[test]
fn vec_index() {
    let v = NEVec::new(10, vec![20, 30]);
    assert_eq!(*v.index(0), 10);
    assert_eq!(*v.index(1), 20);
    assert_eq!(*v.index(2), 30);
}

#[test]
fn vec_split_first_last() {
    let v = NEVec::new(1, vec![2, 3]);
    let (h, t) = v.split_first();
    assert_eq!(*h, 1);
    assert_eq!(t, vec![&2, &3]);
    let (i, l) = v.split_last();
    assert_eq!(i, vec![&1, &2]);
    assert_eq!(*l, 3);
}

#[test]
fn vec_take_split_first_last() {
    let v = NEVec::new(1, vec![2, 3]);
    let (h, rest) = v.take_split_first();
    assert_eq!(h, 1);
    assert_eq!(rest, VecDeque::from(vec![2, 3]));
    let w = NEVec::new(1, vec![2, 3]);
    let (front, l) = w.take_split_last();
    assert_eq!(front, VecDeque::from(vec![1, 2]));
    assert_eq!(l, 3);
}

#[test]
fn vec_is_empty_always_false() {
    let mut v = NEVec::singleton(1);
    assert!(!v.is_empty());
    let _ = v.pop_back();
    assert!(!v.is_empty());
}

#[test]
fn vec_privileged_constructors() {
    let v = NEVec::__from_vec_unsafe(vec![1, 2]);
    assert_eq!(v.len(), 2);
    let d = NEVec::__from_deque_unsafe(VecDeque::from(vec![3, 4]));
    assert_eq!(*d.head(), 3);
}

#[test]
fn vec_invariant_preserved() {
    let mut v = NEVec::new(1, vec![2, 3]);
    assert!(v.len() >= 1);
    v.push_front(0);
    assert!(v.len() >= 1);
    v.push_back(4);
    assert!(v.len() >= 1);
    while v.pop_back().is_ok() {
        assert!(v.len() >= 1);
    }
    assert_eq!(v.len(), 1);
}
