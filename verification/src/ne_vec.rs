//! A non-empty vector type that guarantees at least one element is present.
//! [`NEVec`] wraps a [`VecDeque`] and keeps its length at one or more at every
//! observable point, so first- and last-element accessors never fail.

use vstd::prelude::*;

use crate::errors::NonEmptyError;
use std::collections::VecDeque;

verus! {

/// Non-empty vector type.
#[derive(Debug, Eq, PartialEq, Clone, Hash)]
pub struct NEVec<T>(VecDeque<T>);

impl<T> View for NEVec<T> {
    type V = Seq<T>;

    closed spec fn view(&self) -> Seq<T> {
        self.0@
    }
}

/// Builds a `VecDeque` holding exactly the elements of `v`, in order.
fn deque_of_vec<T>(v: Vec<T>) -> (d: VecDeque<T>)
    ensures
        d@ == v@,
{
    let mut v = v;
    let ghost full = v@;
    let mut d: VecDeque<T> = VecDeque::new();
    proof {
        assert(v@ =~= full.take(v@.len() as int));
        assert(d@ =~= full.skip(v@.len() as int));
    }
    while v.len() > 0
        invariant
            v@.len() <= full.len(),
            v@ == full.take(v@.len() as int),
            d@ == full.skip(v@.len() as int),
        decreases v.len(),
    {
        let ghost k = v@.len() as int;
        let x = v.pop().unwrap();
        d.push_front(x);
        proof {
            assert(v@ =~= full.take(k - 1));
            assert(x == full[k - 1]);
            assert(d@ =~= full.skip(k - 1));
        }
    }
    proof {
        assert(d@ =~= full);
    }
    d
}

/// Collects references to the elements of `d` at positions `lo..hi`, in order.
fn collect_refs<'a, T>(d: &'a VecDeque<T>, lo: usize, hi: usize) -> (r: Vec<&'a T>)
    requires
        lo <= hi,
        hi <= d@.len(),
    ensures
        r@.len() == hi - lo,
        forall|i: int| 0 <= i < r@.len() ==> *r@[i] == d@[lo + i],
{
    let mut r: Vec<&T> = Vec::new();
    let mut j: usize = lo;
    while j < hi
        invariant
            lo <= j <= hi,
            hi <= d@.len(),
            r@.len() == j - lo,
            forall|i: int| 0 <= i < r@.len() ==> *r@[i] == d@[lo + i],
        decreases hi - j,
    {
        r.push(&d[j]);
        j = j + 1;
    }
    r
}

/// Relies on `VecDeque::make_contiguous`: it rearranges the deque's internal
/// storage into one contiguous slice without changing the contents, and
/// returns that slice, holding the elements in front-to-back order.
#[verifier::external_body]
fn contiguous_slice<'a, T>(d: &'a mut VecDeque<T>) -> (r: &'a [T])
    ensures
        final(d)@ == old(d)@,
        r@ == old(d)@,
{
    d.make_contiguous()
}

impl<T> NEVec<T> {
    /// The non-emptiness invariant: at least one element is present at every
    /// observable point. Every constructor establishes it and every mutating
    /// operation preserves it.
    pub open spec fn well_formed(&self) -> bool {
        self@.len() >= 1
    }

    /// Creates a new [`NEVec`] holding `head` followed by the elements of
    /// `tail`, so at least one element is present.
    pub fn new(head: T, tail: Vec<T>) -> (r: Self)
        ensures
            r@ == seq![head] + tail@,
            r.well_formed(),
    {
        let mut vec = deque_of_vec(tail);
        vec.push_front(head);
        NEVec(vec)
    }

    /// Creates a new singleton [`NEVec`], semantically equivalent to
    /// `NEVec::new(value, Vec::new())`.
    pub fn singleton(value: T) -> (r: Self)
        ensures
            r@ == seq![value],
            r.well_formed(),
    {
        let mut vec: VecDeque<T> = VecDeque::new();
        vec.push_back(value);
        NEVec(vec)
    }

    /// Returns the first element. This operation never fails because the
    /// invariant guarantees at least one element is present.
    pub fn head(&self) -> (r: &T)
        requires
            self.well_formed(),
        ensures
            *r == self@[0],
    {
        &self.0[0]
    }

    /// Returns references to all elements except the last one, in order. The
    /// result is empty when this [`NEVec`] is a singleton.
    pub fn init(&self) -> (r: Vec<&T>)
        requires
            self.well_formed(),
        ensures
            r@.len() == self@.len() - 1,
            forall|i: int| 0 <= i < r@.len() ==> *r@[i] == self@[i],
    {
        collect_refs(&self.0, 0, self.0.len() - 1)
    }

    /// Returns references to all elements except the first one, in order. The
    /// result is empty when this [`NEVec`] is a singleton.
    pub fn tail(&self) -> (r: Vec<&T>)
        requires
            self.well_formed(),
        ensures
            r@.len() == self@.len() - 1,
            forall|i: int| 0 <= i < r@.len() ==> *r@[i] == self@[i + 1],
    {
        collect_refs(&self.0, 1, self.0.len())
    }

    /// Returns the last element. This operation never fails because the
    /// invariant guarantees at least one element is present.
    pub fn last(&self) -> (r: &T)
        requires
            self.well_formed(),
        ensures
            *r == self@[self@.len() - 1],
    {
        &self.0[self.0.len() - 1]
    }

    /// Attempts to create a [`NEVec`] from a [`Vec`]; fails with
    /// [`NonEmptyError::Empty`] if and only if the input is empty. On success
    /// the elements are kept verbatim, in order.
    pub fn from_vec(vec: Vec<T>) -> (r: Result<Self, NonEmptyError>)
        ensures
            match r {
                Ok(v) => vec@.len() >= 1 && v@ == vec@ && v.well_formed(),
                Err(e) => vec@.len() == 0 && e == NonEmptyError::Empty,
            },
    {
        if vec.is_empty() {
            Err(NonEmptyError::Empty)
        } else {
            Ok(NEVec(deque_of_vec(vec)))
        }
    }

    /// Attempts to create a [`NEVec`] from a [`VecDeque`]; fails with
    /// [`NonEmptyError::Empty`] if and only if the input is empty. On success
    /// the elements are kept verbatim, in order.
    pub fn from_deque(deque: VecDeque<T>) -> (r: Result<Self, NonEmptyError>)
        ensures
            match r {
                Ok(v) => deque@.len() >= 1 && v@ == deque@ && v.well_formed(),
                Err(e) => deque@.len() == 0 && e == NonEmptyError::Empty,
            },
    {
        if deque.len() == 0 {
            Err(NonEmptyError::Empty)
        } else {
            Ok(NEVec(deque))
        }
    }

    /// Privileged constructor from a [`Vec`] already known to be non-empty;
    /// skips the runtime emptiness check. Reserved for trusted call sites:
    /// handing it an empty vector is a logic error, which the precondition
    /// rules out.
    pub fn __from_vec_unsafe(vec: Vec<T>) -> (r: Self)
        requires
            vec@.len() >= 1,
        ensures
            r@ == vec@,
            r.well_formed(),
    {
        NEVec(deque_of_vec(vec))
    }

    /// Privileged constructor from a [`VecDeque`] already known to be
    /// non-empty; skips the runtime emptiness check. Reserved for trusted
    /// call sites: handing it an empty deque is a logic error, which the
    /// precondition rules out.
    pub fn __from_deque_unsafe(deque: VecDeque<T>) -> (r: Self)
        requires
            deque@.len() >= 1,
        ensures
            r@ == deque@,
            r.well_formed(),
    {
        NEVec(deque)
    }

    /// Returns the length of this [`NEVec`], which is always at least one.
    pub fn len(&self) -> (r: usize)
        requires
            self.well_formed(),
        ensures
            r == self@.len(),
            r >= 1,
    {
        self.0.len()
    }

    /// A [`NEVec`] is always non-empty.
    pub fn is_empty(&self) -> (r: bool)
        ensures
            r == false,
    {
        false
    }

    /// Returns this [`NEVec`]'s elements as one contiguous slice, in order,
    /// rearranging the internal storage if needed.
    pub fn as_slice(&mut self) -> (r: &[T])
        ensures
            final(self)@ == old(self)@,
            r@ == old(self)@,
    {
        contiguous_slice(&mut self.0)
    }

    /// Pushes an element to the front of the [`NEVec`]. Never fails, and the
    /// length grows by exactly one.
    pub fn push_front(&mut self, value: T)
        ensures
            final(self)@ == seq![value] + old(self)@,
            final(self).well_formed(),
    {
        self.0.push_front(value);
    }

    /// Pushes an element to the back of the [`NEVec`]. Never fails, and the
    /// length grows by exactly one.
    pub fn push_back(&mut self, value: T)
        ensures
            final(self)@ == old(self)@.push(value),
            final(self).well_formed(),
    {
        self.0.push_back(value);
    }

    /// Tries to remove and return the first element. Fails with
    /// [`NonEmptyError::AlreadySingleton`] if and only if exactly one element
    /// is present: the last element is never removed.
    pub fn pop_front(&mut self) -> (r: Result<T, NonEmptyError>)
        requires
            old(self).well_formed(),
        ensures
            final(self).well_formed(),
            match r {
                Ok(x) => {
                    &&& old(self)@.len() > 1
                    &&& x == old(self)@[0]
                    &&& final(self)@ == old(self)@.skip(1)
                },
                Err(e) => {
                    &&& old(self)@.len() == 1
                    &&& e == NonEmptyError::AlreadySingleton
                    &&& final(self)@ == old(self)@
                },
            },
    {
        if self.0.len() == 1 {
            Err(NonEmptyError::AlreadySingleton)
        } else {
            match self.0.pop_front() {
                Some(x) => Ok(x),
                None => Err(NonEmptyError::Empty),
            }
        }
    }

    /// Tries to remove and return the last element. Fails with
    /// [`NonEmptyError::AlreadySingleton`] if and only if exactly one element
    /// is present: the last element is never removed.
    pub fn pop_back(&mut self) -> (r: Result<T, NonEmptyError>)
        requires
            old(self).well_formed(),
        ensures
            final(self).well_formed(),
            match r {
                Ok(x) => {
                    &&& old(self)@.len() > 1
                    &&& x == old(self)@.last()
                    &&& final(self)@ == old(self)@.drop_last()
                },
                Err(e) => {
                    &&& old(self)@.len() == 1
                    &&& e == NonEmptyError::AlreadySingleton
                    &&& final(self)@ == old(self)@
                },
            },
    {
        if self.0.len() == 1 {
            Err(NonEmptyError::AlreadySingleton)
        } else {
            match self.0.pop_back() {
                Some(x) => Ok(x),
                None => Err(NonEmptyError::Empty),
            }
        }
    }

    /// Splits the [`NEVec`] into its first element and references to the
    /// rest. Always succeeds because at least one element is present.
    pub fn split_first(&self) -> (r: (&T, Vec<&T>))
        requires
            self.well_formed(),
        ensures
            *r.0 == self@[0],
            r.1@.len() == self@.len() - 1,
            forall|i: int| 0 <= i < r.1@.len() ==> *r.1@[i] == self@[i + 1],
    {
        (self.head(), self.tail())
    }

    /// Splits the [`NEVec`] into references to all elements but the last,
    /// and its last element. Always succeeds because at least one element is
    /// present.
    pub fn split_last(&self) -> (r: (Vec<&T>, &T))
        requires
            self.well_formed(),
        ensures
            r.0@.len() == self@.len() - 1,
            forall|i: int| 0 <= i < r.0@.len() ==> *r.0@[i] == self@[i],
            *r.1 == self@[self@.len() - 1],
    {
        (self.init(), self.last())
    }

    /// Like [`NEVec::split_first`], but consumes the [`NEVec`] and returns
    /// the remaining elements by value.
    pub fn take_split_first(self) -> (r: (T, VecDeque<T>))
        requires
            self.well_formed(),
        ensures
            r.0 == self@[0],
            r.1@ == self@.skip(1),
    {
        let mut deque = self.0;
        let head = deque.pop_front().unwrap();
        (head, deque)
    }

    /// Like [`NEVec::split_last`], but consumes the [`NEVec`] and returns
    /// the remaining elements by value.
    pub fn take_split_last(self) -> (r: (VecDeque<T>, T))
        requires
            self.well_formed(),
        ensures
            r.0@ == self@.drop_last(),
            r.1 == self@.last(),
    {
        let mut deque = self.0;
        let last = deque.pop_back().unwrap();
        (deque, last)
    }

    /// Returns references to all elements of the [`NEVec`], in order.
    pub fn iter(&self) -> (r: Vec<&T>)
        ensures
            r@.len() == self@.len(),
            forall|i: int| 0 <= i < r@.len() ==> *r@[i] == self@[i],
    {
        collect_refs(&self.0, 0, self.0.len())
    }

    /// Returns the element at position `index`. Positions at or past the
    /// length are a caller contract violation, ruled out by the
    /// precondition.
    pub fn index(&self, index: usize) -> (r: &T)
        requires
            index < self@.len(),
        ensures
            *r == self@[index as int],
    {
        &self.0[index]
    }

    /// Converts this [`NEVec`] into an ordinary [`Vec`] holding the same
    /// elements in the same order.
    pub fn into_vec(self) -> (r: Vec<T>)
        ensures
            r@ == self@,
    {
        let mut deque = self.0;
        let ghost full = deque@;
        let mut r: Vec<T> = Vec::new();
        proof {
            assert(r@ =~= full.take(r@.len() as int));
            assert(deque@ =~= full.skip(r@.len() as int));
        }
        while deque.len() > 0
            invariant
                r@.len() + deque@.len() == full.len(),
                r@ == full.take(r@.len() as int),
                deque@ == full.skip(r@.len() as int),
            decreases deque.len(),
        {
            let ghost k = r@.len() as int;
            let x = deque.pop_front().unwrap();
            r.push(x);
            proof {
                assert(x == full[k]);
                assert(r@ =~= full.take(k + 1));
                assert(deque@ =~= full.skip(k + 1));
            }
        }
        proof {
            assert(r@ =~= full);
        }
        r
    }

    /// Converts this [`NEVec`] into an ordinary [`VecDeque`] holding the
    /// same elements in the same order. This operation is zero-cost.
    pub fn into_deque(self) -> (r: VecDeque<T>)
        ensures
            r@ == self@,
    {
        self.0
    }
}

/// Round-trip law: converting a non-empty vector to an ordinary [`Vec`] and
/// back reproduces an element-for-element equal container, in the same
/// order. Here `v` stands for any result of `into_vec` on `x`, and `r` for
/// any result of `from_vec` on `v`: the conversion back always succeeds.
pub proof fn lemma_vec_round_trip<T>(x: NEVec<T>, v: Vec<T>, r: Result<NEVec<T>, NonEmptyError>)
    requires
        x.well_formed(),
        call_ensures(NEVec::<T>::into_vec, (x,), v),
        call_ensures(NEVec::<T>::from_vec, (v,), r),
    ensures
        r matches Ok(w) && w@ == x@,
{
}

/// Round-trip law: converting a non-empty vector to an ordinary
/// [`VecDeque`] and back reproduces an element-for-element equal container,
/// in the same order.
pub proof fn lemma_deque_round_trip<T>(
    x: NEVec<T>,
    d: VecDeque<T>,
    r: Result<NEVec<T>, NonEmptyError>,
)
    requires
        x.well_formed(),
        call_ensures(NEVec::<T>::into_deque, (x,), d),
        call_ensures(NEVec::<T>::from_deque, (d,), r),
    ensures
        r matches Ok(w) && w@ == x@,
{
}

/// Head/last law: a vector built from `head` and `tail` starts with `head`,
/// and ends with the final element of `tail` when `tail` is non-empty, or
/// with `head` when `tail` is empty.
pub proof fn lemma_new_head_last<T>(head: T, tail: Seq<T>)
    ensures
        (seq![head] + tail)[0] == head,
        tail.len() > 0 ==> (seq![head] + tail).last() == tail.last(),
        tail.len() == 0 ==> (seq![head] + tail).last() == head,
{
}

} // verus!
