//! Positions of elements in sequences.
use vstd::prelude::*;

verus! {

/// The position of the first `x` in `s`, or -1 when `s` has none.
pub open spec fn first_index<T>(s: Seq<T>, x: T) -> int
    decreases s.len(),
{
    if s.len() == 0 {
        -1
    } else {
        let p = first_index(s.drop_last(), x);
        if p >= 0 {
            p
        } else if s.last() == x {
            s.len() - 1
        } else {
            -1
        }
    }
}

/// `first_index` is -1 or a position of `x` with no `x` before it.
pub proof fn lemma_first_index<T>(s: Seq<T>, x: T)
    ensures
        -1 <= first_index(s, x) < s.len(),
        first_index(s, x) >= 0 ==> s[first_index(s, x)] == x,
        forall|i: int|
            0 <= i < s.len() && (first_index(s, x) < 0 || i < first_index(s, x)) ==> #[trigger] s[i]
                != x,
    decreases s.len(),
{
    if s.len() > 0 {
        let init = s.drop_last();
        lemma_first_index(init, x);
        assert forall|i: int|
            0 <= i < s.len() && (first_index(s, x) < 0 || i < first_index(s, x)) implies #[trigger] s[i]
            != x by {
            if i < init.len() {
                assert(init[i] == s[i]);
            }
        }
    }
}

/// The first `x` in `s` is at `i` when `s[i]` is `x` and nothing before it is.
pub proof fn lemma_first_index_at<T>(s: Seq<T>, x: T, i: int)
    requires
        0 <= i < s.len(),
        s[i] == x,
        forall|j: int| 0 <= j < i ==> s[j] != x,
    ensures
        first_index(s, x) == i,
{
    lemma_first_index(s, x);
}

} // verus!
