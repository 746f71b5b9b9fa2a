//! Counting of set cells in a boolean sequence, and the laws that relate a
//! count to the sequence: the count is bounded by the length, grows pointwise,
//! and reaches the length exactly when every cell is set.

use vstd::prelude::*;

verus! {

/// How many entries of `s` are `true`.
pub open spec fn count_true(s: Seq<bool>) -> int
    decreases s.len(),
{
    if s.len() == 0 {
        0
    } else {
        count_true(s.drop_last()) + if s.last() { 1int } else { 0int }
    }
}

/// The count of set cells lies between 0 and the length of the sequence.
pub proof fn lemma_count_bounds(s: Seq<bool>)
    ensures
        0 <= count_true(s) <= s.len(),
    decreases s.len(),
{
    if s.len() > 0 {
        lemma_count_bounds(s.drop_last());
    }
}

/// Claims are monotonic: if every cell set in `s1` is also set in `s2`,
/// then `s2` has at least as many set cells as `s1`.
pub proof fn lemma_count_monotone(s1: Seq<bool>, s2: Seq<bool>)
    requires
        s1.len() == s2.len(),
        forall|i: int| 0 <= i < s1.len() && s1[i] ==> s2[i],
    ensures
        count_true(s1) <= count_true(s2),
    decreases s1.len(),
{
    if s1.len() > 0 {
        lemma_count_monotone(s1.drop_last(), s2.drop_last());
    }
}

/// The count equals the length exactly when every cell is set.
pub proof fn lemma_count_full(s: Seq<bool>)
    ensures
        count_true(s) == s.len() <==> (forall|i: int| 0 <= i < s.len() ==> s[i]),
    decreases s.len(),
{
    if s.len() > 0 {
        lemma_count_full(s.drop_last());
        lemma_count_bounds(s.drop_last());
        if count_true(s) == s.len() {
            assert forall|i: int| 0 <= i < s.len() implies s[i] by {
                if i < s.len() - 1 {
                    assert(s.drop_last()[i] == s[i]);
                }
            }
        }
        if forall|i: int| 0 <= i < s.len() ==> s[i] {
            assert forall|i: int| 0 <= i < s.drop_last().len() implies s.drop_last()[i] by {
                assert(s.drop_last()[i] == s[i]);
            }
        }
    }
}

/// Counts the `true` entries of a boolean vector.
pub fn count_true_vec(v: &Vec<bool>) -> (r: usize)
    ensures
        r == count_true(v@),
{
    let mut r: usize = 0;
    let mut i: usize = 0;
    while i < v.len()
        invariant
            0 <= i <= v.len(),
            r == count_true(v@.take(i as int)),
            r <= i,
        decreases v.len() - i,
    {
        proof {
            assert(v@.take(i + 1int).drop_last() =~= v@.take(i as int));
            assert(v@.take(i + 1int).last() == v@[i as int]);
        }
        if v[i] {
            r = r + 1;
        }
        i = i + 1;
    }
    proof {
        assert(v@.take(v@.len() as int) =~= v@);
    }
    r
}

} // verus!
