//! Permutations of axis indices.

use vstd::prelude::*;
use vstd::set_lib::{lemma_int_range, lemma_subset_equality, set_int_range};

verus! {

/// `axes` names every index below `rank` exactly once.
pub open spec fn is_permutation(axes: Seq<usize>, rank: nat) -> bool {
    &&& axes.len() == rank
    &&& forall|i: int| 0 <= i < axes.len() ==> (#[trigger] axes[i]) < rank
    &&& forall|i: int, j: int| 0 <= i < j < axes.len() ==> axes[i] != axes[j]
}

/// The sequence whose `i`-th item is the item of `s` that `axes[i]` names.
pub open spec fn permuted<T>(s: Seq<T>, axes: Seq<usize>) -> Seq<T> {
    Seq::new(axes.len(), |i: int| s[axes[i] as int])
}

/// `inverse` undoes `axes`: it sends `axes[i]` back to `i`.
pub open spec fn is_inverse(axes: Seq<usize>, inverse: Seq<usize>) -> bool {
    &&& inverse.len() == axes.len()
    &&& forall|i: int|
        0 <= i < axes.len() ==> (#[trigger] axes[i]) < inverse.len() && inverse[axes[i] as int]
            == i
}

/// A permutation reaches every index: whatever lies below the rank is named somewhere.
pub proof fn lemma_permutation_is_onto(axes: Seq<usize>, k: int) -> (i: int)
    requires
        is_permutation(axes, axes.len()),
        0 <= k < axes.len(),
    ensures
        0 <= i < axes.len(),
        axes[i] == k,
{
    let n = axes.len() as int;
    let named = Seq::new(axes.len(), |i: int| axes[i] as int);
    named.unique_seq_to_set();
    lemma_int_range(0, n);
    lemma_subset_equality(named.to_set(), set_int_range(0, n));
    assert(named.to_set().contains(k));
    let i = choose|i: int| 0 <= i < named.len() && named[i] == k;
    i
}

/// The inverse of a permutation is a permutation, and the two undo each other in
/// either order.
pub proof fn lemma_inverse_is_permutation(axes: Seq<usize>, inverse: Seq<usize>)
    requires
        is_permutation(axes, axes.len()),
        is_inverse(axes, inverse),
    ensures
        is_permutation(inverse, axes.len()),
        is_inverse(inverse, axes),
{
    assert forall|k: int| 0 <= k < inverse.len() implies (#[trigger] inverse[k]) < axes.len()
        && axes[inverse[k] as int] == k by {
        let i = lemma_permutation_is_onto(axes, k);
    }
}

/// Permuting by `axes` and then by its inverse gives back the sequence.
pub proof fn lemma_permute_round_trip<T>(s: Seq<T>, axes: Seq<usize>, inverse: Seq<usize>)
    requires
        is_permutation(axes, s.len()),
        is_inverse(axes, inverse),
    ensures
        permuted(permuted(s, axes), inverse) == s,
        permuted(permuted(s, inverse), axes) == s,
{
    lemma_inverse_is_permutation(axes, inverse);
}

/// Tells whether `axes` is a permutation of the indices below `rank`.
pub fn is_bijection(axes: &Vec<usize>, rank: usize) -> (r: bool)
    ensures
        r == is_permutation(axes@, rank as nat),
{
    if axes.len() != rank {
        return false;
    }
    let mut seen: Vec<bool> = Vec::new();
    let mut k: usize = 0;
    while k < rank
        invariant
            k <= rank,
            seen@.len() == k,
            forall|m: int| 0 <= m < k ==> !seen@[m],
        decreases rank - k,
    {
        seen.push(false);
        k += 1;
    }
    let mut i: usize = 0;
    while i < rank
        invariant
            i <= rank,
            axes@.len() == rank,
            seen@.len() == rank,
            forall|j: int| 0 <= j < i ==> (#[trigger] axes@[j]) < rank,
            forall|j: int, m: int| 0 <= j < m < i ==> axes@[j] != axes@[m],
            forall|v: int|
                0 <= v < rank ==> (#[trigger] seen@[v] <==> exists|j: int|
                    0 <= j < i && axes@[j] == v),
        decreases rank - i,
    {
        let a: usize = axes[i];
        if a >= rank {
            return false;
        }
        if seen[a] {
            return false;
        }
        seen.set(a, true);
        i += 1;
    }
    true
}

/// The inverse of `axes`, if `axes` is a permutation of its own indices.
pub fn inverse(axes: &Vec<usize>) -> (r: Option<Vec<usize>>)
    ensures
        r is Some <==> is_permutation(axes@, axes@.len()),
        r matches Some(inv) ==> is_inverse(axes@, inv@) && is_inverse(inv@, axes@)
            && is_permutation(inv@, axes@.len()),
{
    let rank: usize = axes.len();
    if !is_bijection(axes, rank) {
        return None;
    }
    let mut inv: Vec<usize> = Vec::new();
    let mut k: usize = 0;
    while k < rank
        invariant
            k <= rank,
            inv@.len() == k,
        decreases rank - k,
    {
        inv.push(0);
        k += 1;
    }
    let mut i: usize = 0;
    while i < rank
        invariant
            i <= rank,
            axes@.len() == rank,
            inv@.len() == rank,
            is_permutation(axes@, rank as nat),
            forall|j: int| 0 <= j < i ==> inv@[(#[trigger] axes@[j]) as int] == j,
        decreases rank - i,
    {
        let a: usize = axes[i];
        inv.set(a, i);
        i += 1;
    }
    proof {
        lemma_inverse_is_permutation(axes@, inv@);
    }
    Some(inv)
}

} // verus!
