//! An ordered non-empty set type guaranteeing at least one element.
//! [`NEOrderedSet`] wraps a [`BTreeSet`], so its elements are kept in the
//! element type's total order, and its size stays at one or more at every
//! observable point.
//!
//! Removal policy: `remove` refuses to take out the last remaining element
//! (it returns `false` and leaves the set unchanged), the same policy as
//! [`crate::NESet`]. This keeps the non-emptiness guarantee intact for
//! every sequence of operations on both set variants.
//!
//! The contracts describe the backing `BTreeSet` through vstd's model of
//! comparison, so the clauses about the set's mathematical view hold under
//! [`obeys_cmp`], which is the verified meaning of "the element type
//! supports a total order"; it holds for the primitive integer types and
//! tuples of them, among others.

use vstd::prelude::*;

use crate::errors::NonEmptyError;
use crate::seq_facts::{lemma_member_nonempty, lemma_skip_to_set_unfold, lemma_to_set_finite};
use std::collections::BTreeSet;
use vstd::laws_cmp::obeys_cmp;
use vstd::std_specs::cmp::OrdSpec;
use vstd::std_specs::iter::IteratorSpec;

verus! {

/// Non-empty ordered set type.
#[derive(Debug, Clone, PartialEq, Eq, PartialOrd, Ord)]
pub struct NEOrderedSet<T: Ord>(BTreeSet<T>);

impl<T: Ord> View for NEOrderedSet<T> {
    type V = Set<T>;

    closed spec fn view(&self) -> Set<T> {
        self.0@
    }
}

impl<T: Ord> NEOrderedSet<T> {
    /// The non-emptiness invariant: at least one element is present at every
    /// observable point. Every constructor establishes it and every mutating
    /// operation preserves it.
    pub open spec fn well_formed(&self) -> bool {
        obeys_cmp::<T>() ==> self@.finite() && self@.len() >= 1
    }

    /// Creates a new [`NEOrderedSet`] holding `head` and all elements of
    /// `tail`, deduplicated, so at least one element is present.
    pub fn new(head: T, tail: Vec<T>) -> (r: Self)
        ensures
            r.well_formed(),
            obeys_cmp::<T>() ==> r@ == tail@.to_set().insert(head),
    {
        let mut set: BTreeSet<T> = BTreeSet::new();
        set.insert(head);
        let mut tail = tail;
        let ghost full = tail@;
        proof {
            assert(tail@ =~= full.take(tail@.len() as int));
            if obeys_cmp::<T>() {
                assert(full.skip(full.len() as int).to_set() =~= Set::<T>::empty());
                assert(set@ =~= full.skip(tail@.len() as int).to_set().insert(head));
            }
        }
        while tail.len() > 0
            invariant
                tail@.len() <= full.len(),
                tail@ == full.take(tail@.len() as int),
                obeys_cmp::<T>() ==> set@ == full.skip(tail@.len() as int).to_set().insert(head),
                obeys_cmp::<T>() ==> set@.finite(),
            decreases tail.len(),
        {
            let ghost k = tail@.len() as int;
            let x = tail.pop().unwrap();
            set.insert(x);
            proof {
                assert(tail@ =~= full.take(k - 1));
                assert(x == full[k - 1]);
                if obeys_cmp::<T>() {
                    lemma_skip_to_set_unfold(full, k - 1);
                    assert(set@ =~= full.skip(k - 1).to_set().insert(head));
                }
            }
        }
        proof {
            if obeys_cmp::<T>() {
                assert(full.skip(0) =~= full);
                assert(set@ =~= full.to_set().insert(head));
                lemma_to_set_finite(full);
                lemma_member_nonempty(set@, head);
            }
        }
        NEOrderedSet(set)
    }

    /// Creates a new singleton [`NEOrderedSet`], semantically equivalent to
    /// `NEOrderedSet::new(value, Vec::new())`.
    pub fn singleton(value: T) -> (r: Self)
        ensures
            r.well_formed(),
            obeys_cmp::<T>() ==> r@ == Set::<T>::empty().insert(value),
    {
        let mut set: BTreeSet<T> = BTreeSet::new();
        set.insert(value);
        proof {
            if obeys_cmp::<T>() {
                lemma_member_nonempty(set@, value);
            }
        }
        NEOrderedSet(set)
    }

    /// Attempts to create a [`NEOrderedSet`] from a [`BTreeSet`]; fails with
    /// [`NonEmptyError::Empty`] if and only if the input is empty. On
    /// success the elements are kept verbatim.
    pub fn from(set: BTreeSet<T>) -> (r: Result<Self, NonEmptyError>)
        ensures
            match r {
                Ok(s) => !set@.is_empty() && s@ == set@ && (obeys_cmp::<T>() && set@.finite()
                    ==> s.well_formed()),
                Err(e) => set@.is_empty() && e == NonEmptyError::Empty,
            },
    {
        if set.is_empty() {
            Err(NonEmptyError::Empty)
        } else {
            proof {
                if set@.finite() && set@.len() == 0 {
                    set@.lemma_len0_is_empty();
                }
            }
            Ok(NEOrderedSet(set))
        }
    }

    /// Privileged constructor from a [`BTreeSet`] already known to be
    /// non-empty; skips the runtime emptiness check. Reserved for trusted
    /// call sites: handing it an empty set is a logic error, which the
    /// precondition rules out.
    pub fn __from_set_unsafe(set: BTreeSet<T>) -> (r: Self)
        requires
            !set@.is_empty(),
        ensures
            r@ == set@,
            obeys_cmp::<T>() && set@.finite() ==> r.well_formed(),
    {
        proof {
            if set@.finite() && set@.len() == 0 {
                set@.lemma_len0_is_empty();
            }
        }
        NEOrderedSet(set)
    }

    /// Extracts the underlying ordered set. This operation is zero-cost and
    /// keeps the elements verbatim.
    pub fn into_set(self) -> (r: BTreeSet<T>)
        ensures
            r@ == self@,
    {
        self.0
    }

    /// A [`NEOrderedSet`] is always non-empty: removal of the last
    /// remaining element is refused, so no sequence of operations empties
    /// the set.
    pub fn is_empty(&self) -> (r: bool)
        ensures
            r == false,
    {
        false
    }

    /// Adds an element to the set. Returns `true` if and only if the set
    /// did not already contain the value. The size never shrinks.
    pub fn insert(&mut self, value: T) -> (r: bool)
        requires
            old(self).well_formed(),
        ensures
            final(self).well_formed(),
            obeys_cmp::<T>() ==> {
                &&& final(self)@ == old(self)@.insert(value)
                &&& r == !old(self)@.contains(value)
            },
    {
        self.0.insert(value)
    }

    /// Removes an element from the set. Returns `true` if and only if the
    /// element was present and removed. When exactly one element is left and
    /// it equals `value`, the removal is refused (`false` is returned and
    /// the set is unchanged), preserving non-emptiness.
    pub fn remove(&mut self, value: &T) -> (r: bool)
        requires
            old(self).well_formed(),
        ensures
            final(self).well_formed(),
            obeys_cmp::<T>() ==> {
                &&& old(self)@.len() == 1 && old(self)@.contains(*value)
                    ==> r == false && final(self)@ == old(self)@
                &&& !(old(self)@.len() == 1 && old(self)@.contains(*value))
                    ==> r == old(self)@.contains(*value)
                        && final(self)@ == old(self)@.remove(*value)
            },
    {
        if self.0.len() == 1 && self.0.contains(value) {
            false
        } else {
            let r = self.0.remove(value);
            proof {
                if obeys_cmp::<T>() {
                    if !old(self)@.contains(*value) {
                        assert(old(self)@.remove(*value) =~= old(self)@);
                    }
                }
            }
            r
        }
    }

    /// Checks whether the set contains a value.
    pub fn contains(&self, value: &T) -> (r: bool)
        ensures
            obeys_cmp::<T>() ==> r == self@.contains(*value),
    {
        self.0.contains(value)
    }

    /// Returns references to all elements of the set, in the element type's
    /// total order: strictly ascending, with no duplicates. Iterating an
    /// unmodified set is reproducible.
    pub fn to_vec(&self) -> (r: Vec<&T>)
        requires
            obeys_cmp::<T>(),
        ensures
            r@.len() == self@.len(),
            forall|i: int| #![auto] 0 <= i < r@.len() ==> self@.contains(*r@[i]),
            forall|x: T| #![auto]
                self@.contains(x) ==> exists|i: int| 0 <= i < r@.len() && *r@[i] == x,
            forall|i: int, j: int| #![auto]
                0 <= i < j < r@.len() ==> (*r@[i]).cmp_spec(&*r@[j]) is Less,
            forall|i: int, j: int| #![auto] 0 <= i < j < r@.len() ==> *r@[i] != *r@[j],
    {
        let ghost keyseq = vstd::std_specs::btree::spec_btree_keys_iter(&self.0).remaining();
        let mut r: Vec<&T> = Vec::new();
        for x in it: self.0.iter()
            invariant
                obeys_cmp::<T>(),
                it.seq() == keyseq,
                r@.len() == it.index(),
                forall|i: int| #![auto] 0 <= i < r@.len() ==> r@[i] == it.seq()[i],
        {
            r.push(x);
        }
        proof {
            assert(r@ =~= keyseq);
            assert(obeys_cmp::<&T>());
            assert forall|i: int| #![auto] 0 <= i < r@.len() implies self@.contains(*r@[i]) by {
                assert(keyseq.unref()[i] == *keyseq[i]);
                assert(keyseq.unref().to_set().contains(keyseq.unref()[i]));
            };
            assert forall|x: T| #![auto] self@.contains(x) implies exists|i: int|
                0 <= i < r@.len() && *r@[i] == x by {
                assert(keyseq.unref().to_set().contains(x));
                let i = choose|i: int|
                    0 <= i < keyseq.unref().len() && #[trigger] keyseq.unref()[i] == x;
                assert(*r@[i] == x);
            };
            assert(vstd::std_specs::btree::increasing_seq(keyseq));
            assert forall|i: int, j: int| #![auto] 0 <= i < j < r@.len() implies (*r@[i]).cmp_spec(
                &*r@[j],
            ) is Less by {
                crate::seq_facts::lemma_increasing_seq_at::<&T>(keyseq, i, j);
            };
            assert forall|i: int, j: int| #![auto] 0 <= i < j < r@.len() implies *r@[i]
                != *r@[j] by {
                assert(keyseq.unref()[i] == *keyseq[i]);
                assert(keyseq.unref()[j] == *keyseq[j]);
            };
        }
        r
    }

    /// Returns the number of elements in the set, which is always at least
    /// one.
    pub fn len(&self) -> (r: usize)
        requires
            self.well_formed(),
        ensures
            obeys_cmp::<T>() ==> r == self@.len() && r >= 1,
    {
        self.0.len()
    }
}

/// Round-trip law: converting a non-empty ordered set to an ordinary
/// [`BTreeSet`] and back reproduces a set with the same members, and hence
/// the same ascending iteration order. Here `b` stands for any result of
/// `into_set` on `x`, and `r` for any result of `from` on `b`: the
/// conversion back always succeeds.
pub proof fn lemma_ordered_set_round_trip<T: Ord>(
    x: NEOrderedSet<T>,
    b: BTreeSet<T>,
    r: Result<NEOrderedSet<T>, NonEmptyError>,
)
    requires
        obeys_cmp::<T>(),
        x.well_formed(),
        call_ensures(NEOrderedSet::<T>::into_set, (x,), b),
        call_ensures(NEOrderedSet::<T>::from, (b,), r),
    ensures
        r matches Ok(s) && s@ == x@,
{
    if b@.is_empty() {
        assert(b@ =~= Set::<T>::empty());
        assert(x@.len() == 0);
    }
}

} // verus!
