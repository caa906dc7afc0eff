//! Internal lemmas about sequences, and about the sets of their elements.

use vstd::prelude::*;
use vstd::seq_lib::seq_to_set_is_finite;
use vstd::std_specs::cmp::OrdSpec;

verus! {

/// Unfolding step: the element set of `s.skip(j)` is the element set of
/// `s.skip(j + 1)` with `s[j]` added.
pub(crate) proof fn lemma_skip_to_set_unfold<T>(s: Seq<T>, j: int)
    requires
        0 <= j < s.len(),
    ensures
        s.skip(j).to_set() == s.skip(j + 1).to_set().insert(s[j]),
{
    assert forall|x: T| s.skip(j).to_set().contains(x) implies s.skip(j + 1).to_set().insert(
        s[j],
    ).contains(x) by {
        let i = choose|i: int| 0 <= i < s.skip(j).len() && s.skip(j)[i] == x;
        if i > 0 {
            assert(s.skip(j + 1)[i - 1] == x);
            assert(s.skip(j + 1).contains(x));
        }
    };
    assert forall|x: T| s.skip(j + 1).to_set().insert(s[j]).contains(x) implies s.skip(
        j,
    ).to_set().contains(x) by {
        if s.skip(j + 1).to_set().contains(x) {
            let i = choose|i: int| 0 <= i < s.skip(j + 1).len() && #[trigger] s.skip(j + 1)[i] == x;
            assert(s.skip(j)[i + 1] == x);
            assert(s.skip(j).contains(x));
        } else {
            assert(s.skip(j)[0] == x);
            assert(s.skip(j).contains(x));
        }
    };
    assert(s.skip(j).to_set() =~= s.skip(j + 1).to_set().insert(s[j]));
}

/// The element set of any sequence is finite.
pub(crate) proof fn lemma_to_set_finite<T>(s: Seq<T>)
    ensures
        s.to_set().finite(),
{
    broadcast use seq_to_set_is_finite;

}

/// The pairwise reading of vstd's `increasing_seq` predicate: under a
/// well-behaved total order, every earlier element compares strictly below
/// every later one.
pub(crate) proof fn lemma_increasing_seq_pairwise<K: Ord>(s: Seq<K>)
    requires
        vstd::laws_cmp::obeys_cmp::<K>(),
        vstd::std_specs::btree::increasing_seq(s),
    ensures
        forall|i: int, j: int|
            0 <= i < j < s.len() ==> #[trigger] s[i].cmp_spec(&s[j]) is Less,
{
}

/// One instance of the pairwise reading of `increasing_seq`, for use at
/// instantiated element types, where the quantified form of
/// `lemma_increasing_seq_pairwise` does not connect to concretely resolved
/// comparison calls.
pub(crate) proof fn lemma_increasing_seq_at<K: Ord>(s: Seq<K>, i: int, j: int)
    requires
        vstd::laws_cmp::obeys_cmp::<K>(),
        vstd::std_specs::btree::increasing_seq(s),
        0 <= i < j < s.len(),
    ensures
        s[i].cmp_spec(&s[j]) is Less,
{
    lemma_increasing_seq_pairwise(s);
}

/// A finite set with a member holds at least one element.
pub(crate) proof fn lemma_member_nonempty<T>(s: Set<T>, x: T)
    requires
        s.finite(),
        s.contains(x),
    ensures
        s.len() >= 1,
{
    if s.len() == 0 {
        s.lemma_len0_is_empty();
    }
}

} // verus!
