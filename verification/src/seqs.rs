//! First-occurrence search over sequences.
//!
//! The store keys its tables by plain values — post ids, language codes,
//! (content id, language code) pairs — and every lookup is "the first element
//! whose key is this one".  [`first_index`] is that search at the
//! specification level; the lemmas here relate it to the pushes and in-place
//! updates the store performs.

use vstd::prelude::*;

verus! {

/// Index of the first occurrence of `x` in `s`, or -1 when `s` does not hold
/// it.
pub open spec fn first_index<T>(s: Seq<T>, x: T) -> int
    decreases s.len(),
{
    if s.len() == 0 {
        -1
    } else if s[0] == x {
        0
    } else {
        let r = first_index(s.drop_first(), x);
        if r == -1 {
            -1
        } else {
            r + 1
        }
    }
}

/// What [`first_index`] returns: a position in range holding `x` with no
/// earlier occurrence, or -1 when no position holds `x`.
pub proof fn lemma_first_index_props<T>(s: Seq<T>, x: T)
    ensures
        -1 <= first_index(s, x) < s.len(),
        first_index(s, x) >= 0 ==> s[first_index(s, x)] == x,
        first_index(s, x) >= 0 ==> forall|j: int| 0 <= j < first_index(s, x) ==> s[j] != x,
        first_index(s, x) == -1 ==> forall|j: int| 0 <= j < s.len() ==> s[j] != x,
    decreases s.len(),
{
    if s.len() > 0 && s[0] != x {
        lemma_first_index_props(s.drop_first(), x);
        assert forall|j: int| 0 <= j < s.len() && first_index(s, x) == -1 implies s[j] != x by {
            if j > 0 {
                assert(s.drop_first()[j - 1] == s[j]);
            }
        }
        if first_index(s, x) >= 0 {
            assert forall|j: int| 0 <= j < first_index(s, x) implies s[j] != x by {
                if j > 0 {
                    assert(s.drop_first()[j - 1] == s[j]);
                }
            }
        }
    }
}

/// A position holding `x` with no earlier occurrence is what [`first_index`]
/// returns.
pub proof fn lemma_first_index_at<T>(s: Seq<T>, x: T, i: int)
    requires
        0 <= i < s.len(),
        s[i] == x,
        forall|j: int| 0 <= j < i ==> s[j] != x,
    ensures
        first_index(s, x) == i,
    decreases i,
{
    if i > 0 {
        assert forall|j: int| 0 <= j < i - 1 implies s.drop_first()[j] != x by {
            assert(s.drop_first()[j] == s[j + 1]);
        }
        assert(s.drop_first()[i - 1] == s[i]);
        lemma_first_index_at(s.drop_first(), x, i - 1);
    }
}

/// Pushing a different value does not move the first occurrence of `y`.
pub proof fn lemma_first_index_push_other<T>(s: Seq<T>, x: T, y: T)
    requires
        x != y,
    ensures
        first_index(s.push(x), y) == first_index(s, y),
    decreases s.len(),
{
    if s.len() == 0 {
        assert(s.push(x)[0] == x);
        assert(s.push(x).drop_first() =~= Seq::<T>::empty());
        assert(first_index(Seq::<T>::empty(), y) == -1);
        assert(first_index(s.push(x), y) == -1);
    } else {
        assert(s.push(x)[0] == s[0]);
        assert(s.push(x).drop_first() =~= s.drop_first().push(x));
        lemma_first_index_push_other(s.drop_first(), x, y);
        if s[0] == y {
            assert(first_index(s.push(x), y) == 0);
            assert(first_index(s, y) == 0);
        } else {
            let r = first_index(s.drop_first(), y);
            assert(first_index(s.drop_first().push(x), y) == r);
            assert(first_index(s.push(x), y) == if r == -1 { -1 } else { r + 1 });
            assert(first_index(s, y) == if r == -1 { -1 } else { r + 1 });
        }
    }
}

} // verus!
