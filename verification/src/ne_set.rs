//! A non-empty set type that guarantees at least one element is present.
//! [`NESet`] wraps a [`HashSet`] and keeps its size at one or more at every
//! observable point.
//!
//! Removal policy: `remove` refuses to take out the last remaining element
//! (it returns `false` and leaves the set unchanged), the same policy as
//! [`crate::NEOrderedSet`]. This keeps the non-emptiness guarantee intact
//! for every sequence of operations on both set variants.
//!
//! The contracts describe the backing `HashSet` through vstd's model of
//! hashing, so the clauses about the set's mathematical view hold under
//! [`obeys_key_model`], which is the verified meaning of "the element type
//! supports equality and hashing"; it holds for the primitive integer types,
//! `bool`, and `String`, among others.

use vstd::prelude::*;

use crate::errors::NonEmptyError;
use crate::seq_facts::{lemma_member_nonempty, lemma_skip_to_set_unfold, lemma_to_set_finite};
use std::collections::HashSet;
use std::collections::hash_map::RandomState;
use std::hash::Hash;
use vstd::std_specs::hash::{builds_valid_hashers, obeys_key_model};
use vstd::std_specs::iter::IteratorSpec;

verus! {

/// The hypothesis under which vstd models the backing `HashSet`: the element
/// type's `Eq` and `Hash` agree with the mathematical model, and the default
/// hasher behaves deterministically.
pub open spec fn hash_model<T>() -> bool {
    obeys_key_model::<T>() && builds_valid_hashers::<RandomState>()
}

/// Non-empty set type.
#[derive(Debug, Eq, PartialEq)]
pub struct NESet<T: Eq + Hash>(HashSet<T>);

impl<T: Eq + Hash + Clone> Clone for NESet<T> {
    /// Relies on `HashSet::clone`: vstd gives it no specification, so
    /// nothing is promised of the copy.
    #[verifier::external_body]
    fn clone(&self) -> Self {
        NESet(self.0.clone())
    }
}

impl<T: Eq + Hash> View for NESet<T> {
    type V = Set<T>;

    closed spec fn view(&self) -> Set<T> {
        self.0@
    }
}

impl<T: Eq + Hash> NESet<T> {
    /// The non-emptiness invariant: at least one element is present at every
    /// observable point. Every constructor establishes it and every mutating
    /// operation preserves it.
    pub open spec fn well_formed(&self) -> bool {
        hash_model::<T>() ==> self@.finite() && self@.len() >= 1
    }

    /// Creates a new [`NESet`] holding `head` and all elements of `tail`,
    /// deduplicated, so at least one element is present.
    pub fn new(head: T, tail: Vec<T>) -> (r: Self)
        ensures
            r.well_formed(),
            hash_model::<T>() ==> r@ == tail@.to_set().insert(head),
    {
        let mut set: HashSet<T> = HashSet::new();
        set.insert(head);
        let mut tail = tail;
        let ghost full = tail@;
        proof {
            assert(tail@ =~= full.take(tail@.len() as int));
            if hash_model::<T>() {
                assert(full.skip(full.len() as int).to_set() =~= Set::<T>::empty());
                assert(set@ =~= full.skip(tail@.len() as int).to_set().insert(head));
            }
        }
        while tail.len() > 0
            invariant
                tail@.len() <= full.len(),
                tail@ == full.take(tail@.len() as int),
                hash_model::<T>() ==> set@ == full.skip(tail@.len() as int).to_set().insert(head),
                hash_model::<T>() ==> set@.finite(),
            decreases tail.len(),
        {
            let ghost k = tail@.len() as int;
            let x = tail.pop().unwrap();
            set.insert(x);
            proof {
                assert(tail@ =~= full.take(k - 1));
                assert(x == full[k - 1]);
                if hash_model::<T>() {
                    lemma_skip_to_set_unfold(full, k - 1);
                    assert(set@ =~= full.skip(k - 1).to_set().insert(head));
                }
            }
        }
        proof {
            if hash_model::<T>() {
                assert(full.skip(0) =~= full);
                assert(set@ =~= full.to_set().insert(head));
                lemma_to_set_finite(full);
                lemma_member_nonempty(set@, head);
            }
        }
        NESet(set)
    }

    /// Creates a new singleton [`NESet`], semantically equivalent to
    /// `NESet::new(value, Vec::new())`.
    pub fn singleton(value: T) -> (r: Self)
        ensures
            r.well_formed(),
            hash_model::<T>() ==> r@ == Set::<T>::empty().insert(value),
    {
        let mut set: HashSet<T> = HashSet::new();
        set.insert(value);
        proof {
            if hash_model::<T>() {
                lemma_member_nonempty(set@, value);
            }
        }
        NESet(set)
    }

    /// Attempts to create a [`NESet`] from a [`HashSet`]; fails with
    /// [`NonEmptyError::Empty`] if and only if the input is empty. On
    /// success the elements are kept verbatim.
    pub fn from(set: HashSet<T>) -> (r: Result<Self, NonEmptyError>)
        ensures
            match r {
                Ok(s) => !set@.is_empty() && s@ == set@ && (hash_model::<T>() && set@.finite()
                    ==> s.well_formed()),
                Err(e) => set@.is_empty() && e == NonEmptyError::Empty,
            },
    {
        if set.is_empty() {
            Err(NonEmptyError::Empty)
        } else {
            proof {
                if set@.finite() && set@.len() == 0 {
                    set@.lemma_len0_is_empty();
                }
            }
            Ok(NESet(set))
        }
    }

    /// Privileged constructor from a [`HashSet`] already known to be
    /// non-empty; skips the runtime emptiness check. Reserved for trusted
    /// call sites: handing it an empty set is a logic error, which the
    /// precondition rules out.
    pub fn __from_set_unsafe(set: HashSet<T>) -> (r: Self)
        requires
            !set@.is_empty(),
        ensures
            r@ == set@,
            hash_model::<T>() && set@.finite() ==> r.well_formed(),
    {
        proof {
            if set@.finite() && set@.len() == 0 {
                set@.lemma_len0_is_empty();
            }
        }
        NESet(set)
    }

    /// Extracts the underlying [`HashSet`]. This operation is zero-cost and
    /// keeps the elements verbatim.
    pub fn into_set(self) -> (r: HashSet<T>)
        ensures
            r@ == self@,
    {
        self.0
    }

    /// Returns the size of the set, which is always at least one.
    pub fn len(&self) -> (r: usize)
        requires
            self.well_formed(),
        ensures
            hash_model::<T>() ==> r == self@.len() && r >= 1,
    {
        self.0.len()
    }

    /// A [`NESet`] is always non-empty: removal of the last remaining
    /// element is refused, so no sequence of operations empties the set.
    pub fn is_empty(&self) -> (r: bool)
        ensures
            r == false,
    {
        false
    }

    /// Adds an element to the set. Returns `true` if and only if the value
    /// was not already present. The size never shrinks.
    pub fn insert(&mut self, value: T) -> (r: bool)
        requires
            old(self).well_formed(),
        ensures
            final(self).well_formed(),
            hash_model::<T>() ==> {
                &&& final(self)@ == old(self)@.insert(value)
                &&& r == !old(self)@.contains(value)
            },
    {
        self.0.insert(value)
    }

    /// Removes an element from the set. Returns `true` if and only if the
    /// element was present and removed. When exactly one element is left and
    /// it equals `value`, the removal is refused (`false` is returned and
    /// the set is unchanged), preserving non-emptiness.
    pub fn remove(&mut self, value: &T) -> (r: bool)
        requires
            old(self).well_formed(),
        ensures
            final(self).well_formed(),
            hash_model::<T>() ==> {
                &&& old(self)@.len() == 1 && old(self)@.contains(*value)
                    ==> r == false && final(self)@ == old(self)@
                &&& !(old(self)@.len() == 1 && old(self)@.contains(*value))
                    ==> r == old(self)@.contains(*value)
                        && final(self)@ == old(self)@.remove(*value)
            },
    {
        if self.0.len() == 1 && self.0.contains(value) {
            false
        } else {
            let r = self.0.remove(value);
            proof {
                if hash_model::<T>() {
                    if !old(self)@.contains(*value) {
                        assert(old(self)@.remove(*value) =~= old(self)@);
                    }
                }
            }
            r
        }
    }

    /// Checks whether the set contains a value.
    pub fn contains(&self, value: &T) -> (r: bool)
        ensures
            hash_model::<T>() ==> r == self@.contains(*value),
    {
        self.0.contains(value)
    }

    /// Returns references to all elements of the set, each exactly once, in
    /// an unspecified order.
    pub fn to_vec(&self) -> (r: Vec<&T>)
        requires
            hash_model::<T>(),
        ensures
            r@.len() == self@.len(),
            forall|i: int| #![auto] 0 <= i < r@.len() ==> self@.contains(*r@[i]),
            forall|x: T| #![auto]
                self@.contains(x) ==> exists|i: int| 0 <= i < r@.len() && *r@[i] == x,
            forall|i: int, j: int| #![auto] 0 <= i < j < r@.len() ==> *r@[i] != *r@[j],
    {
        let ghost keyseq = vstd::std_specs::hash::spec_hash_keys_iter(&self.0).remaining();
        let mut r: Vec<&T> = Vec::new();
        for x in it: self.0.iter()
            invariant
                hash_model::<T>(),
                it.seq() == keyseq,
                r@.len() == it.index(),
                forall|i: int| #![auto] 0 <= i < r@.len() ==> r@[i] == it.seq()[i],
        {
            r.push(x);
        }
        proof {
            assert(r@ =~= keyseq);
            assert forall|i: int| #![auto] 0 <= i < r@.len() implies self@.contains(*r@[i]) by {
                assert(keyseq.unref()[i] == *keyseq[i]);
                assert(keyseq.unref().to_set().contains(keyseq.unref()[i]));
            };
            assert forall|x: T| #![auto] self@.contains(x) implies exists|i: int|
                0 <= i < r@.len() && *r@[i] == x by {
                assert(keyseq.unref().to_set().contains(x));
                let i = choose|i: int|
                    0 <= i < keyseq.unref().len() && #[trigger] keyseq.unref()[i] == x;
                assert(*r@[i] == x);
            };
            assert forall|i: int, j: int| #![auto] 0 <= i < j < r@.len() implies *r@[i]
                != *r@[j] by {
                assert(keyseq.unref()[i] == *keyseq[i]);
                assert(keyseq.unref()[j] == *keyseq[j]);
            };
        }
        r
    }
}

/// Round-trip law: converting a non-empty set to an ordinary [`HashSet`]
/// and back reproduces a set with the same members. Here `h` stands for any
/// result of `into_set` on `x`, and `r` for any result of `from` on `h`:
/// the conversion back always succeeds.
pub proof fn lemma_set_round_trip<T: Eq + Hash>(
    x: NESet<T>,
    h: HashSet<T>,
    r: Result<NESet<T>, NonEmptyError>,
)
    requires
        hash_model::<T>(),
        x.well_formed(),
        call_ensures(NESet::<T>::into_set, (x,), h),
        call_ensures(NESet::<T>::from, (h,), r),
    ensures
        r matches Ok(s) && s@ == x@,
{
    if h@.is_empty() {
        assert(h@ =~= Set::<T>::empty());
        assert(x@.len() == 0);
    }
}

} // verus!
