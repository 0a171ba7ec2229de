//! Deterministic sorting by an integer key.
//!
//! The read-side listings present posts newest-first and events in calendar
//! order.  Each listed type maps to an integer key ([`SortKey`]), and
//! [`sort_by_key`] is an insertion sort whose exact output is pinned by the
//! recursive [`spec_sort`]; [`lemma_sort_props`] states the classical reading
//! — the output is ordered by key and a permutation of the input.

use vstd::prelude::*;
use vstd::seq_lib::group_to_multiset_ensures;
use vstd::multiset::group_multiset_axioms;

verus! {

/// A type listable in a fixed order: every value maps to an integer key, and
/// values compare by their keys.
pub trait SortKey: Sized {
    /// The value's ordering key.
    spec fn key(&self) -> int;

    /// Compares two values by their keys.
    fn le(&self, other: &Self) -> (r: bool)
        ensures
            r == (self.key() <= other.key()),
    ;
}

/// Keys never decrease along the sequence.
pub open spec fn sorted_by_key<T: SortKey>(s: Seq<T>) -> bool {
    forall|i: int, j: int|
        0 <= i < j < s.len() ==> (#[trigger] s[i]).key() <= (#[trigger] s[j]).key()
}

/// Where an element lands: before the first element whose key is at least its
/// own, so that an insertion never reorders equal keys already present.
pub open spec fn spec_insert_sorted<T: SortKey>(s: Seq<T>, x: T) -> Seq<T>
    decreases s.len(),
{
    if s.len() == 0 {
        seq![x]
    } else if x.key() <= s[0].key() {
        seq![x] + s
    } else {
        seq![s[0]] + spec_insert_sorted(s.drop_first(), x)
    }
}

/// The sorted arrangement of a sequence: each element inserted in turn, the
/// first one last.
pub open spec fn spec_sort<T: SortKey>(s: Seq<T>) -> Seq<T>
    decreases s.len(),
{
    if s.len() == 0 {
        Seq::empty()
    } else {
        spec_insert_sorted(spec_sort(s.drop_first()), s[0])
    }
}

/// [`spec_insert_sorted`] is the positional insert at the first index whose
/// key is at least the new element's.
pub proof fn lemma_insert_sorted_at<T: SortKey>(s: Seq<T>, x: T, i: int)
    requires
        0 <= i <= s.len(),
        forall|j: int| 0 <= j < i ==> (#[trigger] s[j]).key() < x.key(),
        i < s.len() ==> x.key() <= s[i].key(),
    ensures
        spec_insert_sorted(s, x) == s.insert(i, x),
    decreases i,
{
    if i == 0 {
        if s.len() == 0 {
            assert(s.insert(0, x) =~= seq![x]);
        } else {
            assert(s.insert(0, x) =~= seq![x] + s);
        }
    } else {
        let rest = s.drop_first();
        assert forall|j: int| 0 <= j < i - 1 implies (#[trigger] rest[j]).key() < x.key() by {
            assert(rest[j] == s[j + 1]);
        }
        assert(s[0].key() < x.key());
        lemma_insert_sorted_at(rest, x, i - 1);
        assert(s.insert(i, x) =~= seq![s[0]] + rest.insert(i - 1, x));
    }
}

/// Inserting keeps the order, adds exactly the new element to the contents,
/// and invents nothing else.
pub proof fn lemma_insert_sorted_props<T: SortKey>(s: Seq<T>, x: T)
    requires
        sorted_by_key(s),
    ensures
        sorted_by_key(spec_insert_sorted(s, x)),
        spec_insert_sorted(s, x).to_multiset() == s.to_multiset().insert(x),
        spec_insert_sorted(s, x).len() == s.len() + 1,
        forall|k: int|
            0 <= k < spec_insert_sorted(s, x).len() ==> #[trigger] spec_insert_sorted(s, x)[k]
                == x || s.contains(spec_insert_sorted(s, x)[k]),
    decreases s.len(),
{
    broadcast use group_to_multiset_ensures, group_multiset_axioms;

    let res = spec_insert_sorted(s, x);
    if s.len() == 0 {
        assert(res =~= Seq::<T>::empty().insert(0, x));
        assert(res.to_multiset() == Seq::<T>::empty().to_multiset().insert(x));
        assert(s.to_multiset() =~= Seq::<T>::empty().to_multiset());
    } else if x.key() <= s[0].key() {
        assert(res =~= s.insert(0, x));
        assert forall|i: int, j: int| 0 <= i < j < res.len() implies (#[trigger] res[i]).key() <= (
        #[trigger] res[j]).key() by {
            if i == 0 {
                if j > 0 {
                    assert(res[j] == s[j - 1]);
                    assert(s[0].key() <= s[j - 1].key());
                }
            } else {
                assert(res[i] == s[i - 1]);
                assert(res[j] == s[j - 1]);
            }
        }
        assert forall|k: int| 0 <= k < res.len() implies #[trigger] res[k] == x || s.contains(
            res[k],
        ) by {
            if k > 0 {
                assert(res[k] == s[k - 1]);
            }
        }
    } else {
        let rest = s.drop_first();
        assert forall|i: int, j: int| 0 <= i < j < rest.len() implies (#[trigger] rest[i]).key()
            <= (#[trigger] rest[j]).key() by {
            assert(rest[i] == s[i + 1]);
            assert(rest[j] == s[j + 1]);
        }
        lemma_insert_sorted_props(rest, x);
        let t = spec_insert_sorted(rest, x);
        assert(res =~= t.insert(0, s[0]));
        assert(res.to_multiset() == t.to_multiset().insert(s[0]));
        assert(s =~= rest.insert(0, s[0]));
        assert(s.to_multiset() == rest.to_multiset().insert(s[0]));
        assert(res.to_multiset() =~= s.to_multiset().insert(x));
        assert forall|k: int| 0 <= k < res.len() implies #[trigger] res[k] == x || s.contains(
            res[k],
        ) by {
            if k > 0 {
                assert(res[k] == t[k - 1]);
                if t[k - 1] != x {
                    assert(rest.contains(t[k - 1]));
                    let m = choose|m: int| 0 <= m < rest.len() && rest[m] == t[k - 1];
                    assert(s[m + 1] == t[k - 1]);
                }
            } else {
                assert(res[0] == s[0]);
                assert(s.contains(s[0]));
            }
        }
        assert forall|i: int, j: int| 0 <= i < j < res.len() implies (#[trigger] res[i]).key() <= (
        #[trigger] res[j]).key() by {
            if i == 0 {
                assert(res[j] == t[j - 1]);
                if t[j - 1] == x {
                    assert(s[0].key() < x.key());
                } else {
                    assert(rest.contains(t[j - 1]));
                    let m = choose|m: int| 0 <= m < rest.len() && rest[m] == t[j - 1];
                    assert(s[m + 1] == t[j - 1]);
                    assert(s[0].key() <= s[m + 1].key());
                }
            } else {
                assert(res[i] == t[i - 1]);
                assert(res[j] == t[j - 1]);
            }
        }
    }
}

/// The sorted arrangement is ordered by key and a permutation of the input.
pub proof fn lemma_sort_props<T: SortKey>(s: Seq<T>)
    ensures
        sorted_by_key(spec_sort(s)),
        spec_sort(s).to_multiset() == s.to_multiset(),
        spec_sort(s).len() == s.len(),
    decreases s.len(),
{
    broadcast use group_to_multiset_ensures, group_multiset_axioms;

    if s.len() > 0 {
        let rest = s.drop_first();
        lemma_sort_props(rest);
        lemma_insert_sorted_props(spec_sort(rest), s[0]);
        assert(s =~= rest.insert(0, s[0]));
        assert(s.to_multiset() == rest.to_multiset().insert(s[0]));
    }
}

/// Inserts an element into a key-sorted vector, per [`spec_insert_sorted`].
pub fn insert_sorted<T: SortKey>(v: Vec<T>, x: T) -> (r: Vec<T>)
    ensures
        r@ == spec_insert_sorted(v@, x),
{
    let mut v = v;
    let n: usize = v.len();
    let mut i: usize = 0;
    while i < n && !x.le(&v[i])
        invariant
            n == v@.len(),
            0 <= i <= n,
            forall|j: int| 0 <= j < i ==> (#[trigger] v@[j]).key() < x.key(),
        decreases n - i,
    {
        i = i + 1;
    }
    proof {
        lemma_insert_sorted_at(v@, x, i as int);
    }
    v.insert(i, x);
    v
}

/// Sorts a vector by key, per [`spec_sort`]: a verified insertion sort.
pub fn sort_by_key<T: SortKey>(v: Vec<T>) -> (r: Vec<T>)
    ensures
        r@ == spec_sort(v@),
{
    let ghost whole = v@;
    let mut src = v;
    let mut acc: Vec<T> = Vec::new();
    proof {
        assert(whole.skip(whole.len() as int).len() == 0);
    }
    while src.len() > 0
        invariant
            src@.len() <= whole.len(),
            src@ == whole.subrange(0, src@.len() as int),
            acc@ == spec_sort(whole.skip(src@.len() as int)),
        decreases src@.len(),
    {
        let ghost m = src@.len() as int;
        let x: T = match src.pop() {
            Some(x) => x,
            None => unreached(),
        };
        proof {
            assert(x == whole[m - 1]);
            assert(src@ =~= whole.subrange(0, m - 1));
            let tail = whole.skip(m - 1);
            assert(tail[0] == whole[m - 1]);
            assert(tail.drop_first() =~= whole.skip(m));
            assert(spec_sort(tail) == spec_insert_sorted(spec_sort(whole.skip(m)), x));
        }
        acc = insert_sorted(acc, x);
    }
    proof {
        assert(whole.skip(0) =~= whole);
    }
    acc
}

} // verus!
