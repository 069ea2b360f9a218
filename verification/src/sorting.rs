//! Sorting and deduplication of digest lists.
//!
//! The builders accumulate digests in insertion order and collapse them to a
//! strictly increasing list right before peeling, which both removes
//! duplicates and makes the build independent of insertion order.

use vstd::prelude::*;

verus! {

use vstd::multiset::Multiset;
use vstd::seq_lib::lemma_multiset_commutative;

/// The sequence is in ascending order.
pub open spec fn sorted(s: Seq<u64>) -> bool {
    forall|i: int, j: int| 0 <= i < j < s.len() ==> s[i] <= s[j]
}

/// The sequence is in strictly ascending order: sorted and duplicate-free.
pub open spec fn strictly_sorted(s: Seq<u64>) -> bool {
    forall|i: int, j: int| 0 <= i < j < s.len() ==> s[i] < s[j]
}

/// A strictly ascending list enumerates the value set of its source without
/// repetition: its length is the number of distinct source values.
pub proof fn lemma_distinct_count(unique: Seq<u64>, source: Seq<u64>)
    requires
        strictly_sorted(unique),
        forall|x: u64| unique.contains(x) <==> source.contains(x),
    ensures
        unique.len() == source.to_set().len(),
{
    assert(unique.no_duplicates()) by {
        assert forall|i: int, j: int|
            0 <= i < unique.len() && 0 <= j < unique.len() && i != j implies unique[i]
            != unique[j] by {
            if i < j {
                assert(unique[i] < unique[j]);
            } else {
                assert(unique[j] < unique[i]);
            }
        }
    }
    unique.unique_seq_to_set();
    assert(unique.to_set() =~= source.to_set());
}

/// A pushed sequence holds exactly the old values and the pushed one.
proof fn lemma_push_contains(s: Seq<u64>, x: u64)
    ensures
        forall|y: u64| #[trigger] s.push(x).contains(y) <==> s.contains(y) || y == x,
{
    assert forall|y: u64| #[trigger] s.push(x).contains(y) implies s.contains(y) || y == x by {
        let p = choose|p: int| 0 <= p < s.push(x).len() && s.push(x)[p] == y;
        if p < s.len() {
            assert(s[p] == y);
        }
    }
    assert forall|y: u64| s.contains(y) || y == x implies #[trigger] s.push(x).contains(y) by {
        if s.contains(y) {
            let p = choose|p: int| 0 <= p < s.len() && s[p] == y;
            assert(s.push(x)[p] == y);
        } else {
            assert(s.push(x)[s.len() as int] == y);
        }
    }
}

fn merge(a: Vec<u64>, b: Vec<u64>) -> (r: Vec<u64>)
    requires
        sorted(a@),
        sorted(b@),
    ensures
        sorted(r@),
        r@.to_multiset() == a@.to_multiset().add(b@.to_multiset()),
        r@.len() == a@.len() + b@.len(),
{
    broadcast use vstd::seq_lib::group_to_multiset_ensures;
    broadcast use vstd::multiset::group_multiset_axioms;

    let mut r: Vec<u64> = Vec::new();
    let mut i: usize = 0;
    let mut j: usize = 0;
    proof {
        assert(a@.subrange(0, 0) =~= Seq::<u64>::empty());
        assert(b@.subrange(0, 0) =~= Seq::<u64>::empty());
        assert(Seq::<u64>::empty().to_multiset() =~= Multiset::<u64>::empty());
        assert(r@.to_multiset() =~= a@.subrange(0, 0).to_multiset().add(
            b@.subrange(0, 0).to_multiset(),
        ));
    }
    while i < a.len() || j < b.len()
        invariant
            i <= a.len(),
            j <= b.len(),
            sorted(a@),
            sorted(b@),
            sorted(r@),
            r@.len() == i + j,
            r@.to_multiset() == a@.subrange(0, i as int).to_multiset().add(
                b@.subrange(0, j as int).to_multiset(),
            ),
            forall|p: int| i <= p < a@.len() && r@.len() > 0 ==> r@.last() <= a@[p],
            forall|p: int| j <= p < b@.len() && r@.len() > 0 ==> r@.last() <= b@[p],
        decreases a.len() + b.len() - i - j,
    {
        let take_a: bool = if i < a.len() {
            if j < b.len() {
                a[i] <= b[j]
            } else {
                true
            }
        } else {
            false
        };
        let ghost old_r = r@;
        if take_a {
            let x = a[i];
            r.push(x);
            proof {
                let pa = a@.subrange(0, i as int);
                let pb = b@.subrange(0, j as int);
                assert(a@.subrange(0, i + 1) =~= pa.push(x));
                old_r.to_multiset_ensures();
                pa.to_multiset_ensures();
                assert(r@.to_multiset() =~= old_r.to_multiset().insert(x));
                assert(a@.subrange(0, i + 1).to_multiset() =~= pa.to_multiset().insert(x));
                assert(old_r.to_multiset().insert(x) =~= pa.to_multiset().insert(x).add(
                    pb.to_multiset(),
                ));
            }
            i = i + 1;
        } else {
            let x = b[j];
            r.push(x);
            proof {
                let pa = a@.subrange(0, i as int);
                let pb = b@.subrange(0, j as int);
                assert(b@.subrange(0, j + 1) =~= pb.push(x));
                old_r.to_multiset_ensures();
                pb.to_multiset_ensures();
                assert(r@.to_multiset() =~= old_r.to_multiset().insert(x));
                assert(b@.subrange(0, j + 1).to_multiset() =~= pb.to_multiset().insert(x));
                assert(old_r.to_multiset().insert(x) =~= pa.to_multiset().add(
                    pb.to_multiset().insert(x),
                ));
            }
            j = j + 1;
        }
    }
    proof {
        assert(a@.subrange(0, a@.len() as int) =~= a@);
        assert(b@.subrange(0, b@.len() as int) =~= b@);
    }
    r
}

/// Sorts the digests in ascending order; the result holds exactly the same
/// values, duplicates included.
pub(crate) fn sort_digests(v: Vec<u64>) -> (r: Vec<u64>)
    ensures
        sorted(r@),
        r@.to_multiset() == v@.to_multiset(),
        r@.len() == v@.len(),
    decreases v@.len(),
{
    broadcast use vstd::seq_lib::group_to_multiset_ensures;
    broadcast use vstd::multiset::group_multiset_axioms;

    if v.len() <= 1 {
        return v;
    }
    let mid: usize = v.len() / 2;
    let mut left: Vec<u64> = Vec::new();
    let mut idx: usize = 0;
    while idx < mid
        invariant
            mid <= v@.len(),
            idx <= mid,
            left@ == v@.subrange(0, idx as int),
        decreases mid - idx,
    {
        left.push(v[idx]);
        proof {
            assert(v@.subrange(0, idx + 1) =~= v@.subrange(0, idx as int).push(v@[idx as int]));
        }
        idx = idx + 1;
    }
    let mut right: Vec<u64> = Vec::new();
    let mut jdx: usize = mid;
    while jdx < v.len()
        invariant
            mid <= jdx <= v@.len(),
            right@ == v@.subrange(mid as int, jdx as int),
        decreases v@.len() - jdx,
    {
        right.push(v[jdx]);
        proof {
            assert(v@.subrange(mid as int, jdx + 1) =~= v@.subrange(mid as int, jdx as int).push(
                v@[jdx as int],
            ));
        }
        jdx = jdx + 1;
    }
    proof {
        assert(v@ =~= v@.subrange(0, mid as int) + v@.subrange(mid as int, v@.len() as int));
        lemma_multiset_commutative(v@.subrange(0, mid as int), v@.subrange(mid as int, v@.len() as int));
    }
    let left_sorted = sort_digests(left);
    let right_sorted = sort_digests(right);
    merge(left_sorted, right_sorted)
}

/// Collapses a sorted list to its distinct values, kept in strictly
/// ascending order. A value is in the result exactly when it is in the input.
pub(crate) fn dedup_sorted(v: &Vec<u64>) -> (r: Vec<u64>)
    requires
        sorted(v@),
    ensures
        strictly_sorted(r@),
        forall|x: u64| r@.contains(x) <==> v@.contains(x),
        r@.len() <= v@.len(),
{
    let mut r: Vec<u64> = Vec::new();
    let mut i: usize = 0;
    while i < v.len()
        invariant
            i <= v@.len(),
            sorted(v@),
            strictly_sorted(r@),
            r@.len() <= i,
            i > 0 ==> r@.len() > 0 && r@.last() == v@[i - 1],
            forall|x: u64| r@.contains(x) <==> v@.subrange(0, i as int).contains(x),
        decreases v@.len() - i,
    {
        let x = v[i];
        let push_it: bool = if r.len() == 0 {
            true
        } else {
            r[r.len() - 1] != x
        };
        let ghost old_r = r@;
        if push_it {
            r.push(x);
        }
        proof {
            let prefix = v@.subrange(0, i as int);
            assert(v@.subrange(0, i + 1) =~= prefix.push(x));
            lemma_push_contains(prefix, x);
            if push_it {
                assert(r@ == old_r.push(x));
                lemma_push_contains(old_r, x);
                if i > 0 {
                    assert(old_r.last() != x);
                    assert(old_r.last() == v@[i - 1]);
                    assert(v@[i - 1] <= v@[i as int]);
                    assert(forall|p: int, q: int|
                        0 <= p < q < r@.len() ==> #[trigger] r@[p] < #[trigger] r@[q]) by {
                        assert(forall|p: int|
                            0 <= p < old_r.len() ==> #[trigger] old_r[p] <= old_r.last());
                    }
                }
            } else {
                assert(r@.last() == x);
                assert(r@.contains(x)) by {
                    assert(r@[r@.len() - 1] == x);
                }
                assert(v@[i - 1] == old_r.last());
                assert(v@[i as int] == old_r.last());
            }
        }
        i = i + 1;
    }
    proof {
        assert(v@.subrange(0, v@.len() as int) =~= v@);
    }
    r
}

} // verus!
