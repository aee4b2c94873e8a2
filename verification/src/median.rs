//! The quorum aggregator: reduces a list of submissions to a single
//! consensus value, the median of the list.

use vstd::prelude::*;
use vstd::relations::{sorted_by, total_ordering};
use vstd::seq_lib::lemma_sorted_unique;
use vstd::multiset::Multiset;
use crate::types::{saturating_add, spec_sat_add};

verus! {

broadcast use vstd::seq_lib::group_to_multiset_ensures, vstd::multiset::group_multiset_axioms;

/// The ordering by which submissions are sorted.
pub open spec fn value_le() -> spec_fn(u64, u64) -> bool {
    |x: u64, y: u64| x <= y
}

/// The submissions in ascending order.
pub open spec fn sorted_values(s: Seq<u64>) -> Seq<u64> {
    s.sort_by(value_le())
}

/// The consensus value of a non-empty list of submissions: the middle element
/// of the sorted list for odd length, the saturating average of the two middle
/// elements for even length.
pub open spec fn median_spec(s: Seq<u64>) -> u64
    recommends
        s.len() > 0,
{
    let t = sorted_values(s);
    let mid = s.len() as int / 2;
    if s.len() % 2 == 0 {
        ((spec_sat_add(t[mid - 1], t[mid]) as int) / 2) as u64
    } else {
        t[mid]
    }
}

pub proof fn lemma_value_le_total()
    ensures
        total_ordering(value_le()),
{
}

/// Facts about the sorted form of a sequence: it is sorted, it is a
/// permutation of the input, and it has the same length.
pub proof fn lemma_sorted_values_ensures(s: Seq<u64>)
    ensures
        sorted_by(sorted_values(s), value_le()),
        sorted_values(s).to_multiset() == s.to_multiset(),
        sorted_values(s).len() == s.len(),
{
    lemma_value_le_total();
    s.lemma_sort_by_ensures(value_le());
    assert(sorted_values(s).to_multiset() =~= s.to_multiset());
    assert(sorted_values(s).to_multiset().len() == sorted_values(s).len());
    assert(s.to_multiset().len() == s.len());
}

/// The position of a minimal element of `v`.
fn index_of_min(v: &Vec<u64>) -> (mi: usize)
    requires
        v@.len() > 0,
    ensures
        mi < v@.len(),
        forall|j: int| 0 <= j < v@.len() ==> v@[mi as int] <= v@[j],
{
    let n = v.len();
    let mut mi: usize = 0;
    let mut i: usize = 1;
    while i < n
        invariant
            mi < i <= n,
            n == v@.len(),
            forall|j: int| 0 <= j < i ==> v@[mi as int] <= v@[j],
        decreases n - i,
    {
        if v[i] < v[mi] {
            mi = i;
        }
        i = i + 1;
    }
    mi
}

/// Sort the vector ascending, in place.
pub(crate) fn sort_values_in_place(v: &mut Vec<u64>)
    ensures
        final(v)@ == sorted_values(old(v)@),
{
    let ghost orig = v@;
    let mut out: Vec<u64> = Vec::new();
    while v.len() > 0
        invariant
            sorted_by(out@, value_le()),
            out@.to_multiset().add(v@.to_multiset()) =~= orig.to_multiset(),
            forall|i: int, j: int|
                0 <= i < out@.len() && 0 <= j < v@.len() ==> out@[i] <= v@[j],
        decreases v@.len(),
    {
        let mi = index_of_min(v);
        let ghost vpre = v@;
        let ghost outpre = out@;
        let x = v.remove(mi);
        out.push(x);
        proof {
            assert(v@.to_multiset() =~= vpre.to_multiset().remove(x));
            assert(out@.to_multiset() =~= outpre.to_multiset().insert(x));
            assert(out@.to_multiset().add(v@.to_multiset()) =~= orig.to_multiset());
            assert forall|i: int, j: int|
                0 <= i < out@.len() && 0 <= j < v@.len() implies out@[i] <= v@[j] by {
                assert(v@[j] == if j < mi as int {
                    vpre[j]
                } else {
                    vpre[j + 1]
                });
            }
            assert forall|i: int, j: int| 0 <= i < j < out@.len() implies value_le()(
                out@[i],
                out@[j],
            ) by {
                if j < out@.len() - 1 {
                    assert(value_le()(outpre[i], outpre[j]));
                }
            }
        }
    }
    proof {
        lemma_value_le_total();
        lemma_sorted_values_ensures(orig);
        assert(v@.to_multiset() =~= Multiset::<u64>::empty()) by {
            assert(forall|a: u64| !v@.contains(a));
        }
        assert(out@.to_multiset() =~= orig.to_multiset());
        lemma_sorted_unique(out@, sorted_values(orig), value_le());
        assert(out@ == sorted_values(orig));
    }
    *v = out;
}

/// Determine the median of a list of values. Sorts the list in place; for odd
/// length returns the middle element, for even length the saturating average
/// of the two middle elements.
pub fn median(values: &mut Vec<u64>) -> (r: u64)
    requires
        old(values)@.len() > 0,
    ensures
        final(values)@ == sorted_values(old(values)@),
        r == median_spec(old(values)@),
{
    proof {
        lemma_sorted_values_ensures(old(values)@);
    }
    sort_values_in_place(values);
    let n = values.len();
    let mid = n / 2;
    if n % 2 == 0 {
        saturating_add(values[mid - 1], values[mid]) / 2
    } else {
        values[mid]
    }
}

/// The median of a non-empty list lies between its minimum and maximum
/// (the first and last elements of the sorted list), provided that for even
/// length the sum of the two middle elements does not overflow. With
/// saturation the bound can fail: two maximal values average to half the
/// maximum.
pub proof fn lemma_median_bounds(s: Seq<u64>)
    requires
        s.len() > 0,
        s.len() % 2 == 0 ==> sorted_values(s)[s.len() as int / 2 - 1] + sorted_values(s)[
            s.len() as int / 2
        ] <= u64::MAX,
    ensures
        sorted_values(s).first() <= median_spec(s),
        median_spec(s) <= sorted_values(s).last(),
        forall|i: int|
            0 <= i < s.len() ==> sorted_values(s).first() <= #[trigger] s[i] && s[i]
                <= sorted_values(s).last(),
{
    lemma_sorted_values_ensures(s);
    let t = sorted_values(s);
    let mid = s.len() as int / 2;
    assert(forall|i: int, j: int| 0 <= i < j < t.len() ==> value_le()(t[i], t[j]));
    assert(forall|i: int, j: int| 0 <= i < j < t.len() ==> t[i] <= t[j]);
    if s.len() % 2 == 0 {
        let a = t[mid - 1];
        let b = t[mid];
        assert(a <= b);
        assert(median_spec(s) == ((a + b) as int / 2) as u64);
        assert(a as int <= (a + b) as int / 2 <= b as int);
    }
    assert forall|i: int| 0 <= i < s.len() implies t.first() <= #[trigger] s[i] && s[i]
        <= t.last() by {
        assert(s.to_multiset().contains(s[i]));
        assert(t.to_multiset().contains(s[i]));
        assert(t.contains(s[i]));
        let j = choose|j: int| 0 <= j < t.len() && t[j] == s[i];
        assert(t.first() <= t[j] && t[j] <= t.last());
    }
}

/// On an already-sorted list, sorting is the identity: the median of a sorted
/// odd-length list is its true middle element, and of a sorted even-length
/// list the saturating average of its two middle elements.
pub proof fn lemma_median_of_sorted(s: Seq<u64>)
    requires
        s.len() > 0,
        sorted_by(s, value_le()),
    ensures
        sorted_values(s) == s,
        s.len() % 2 == 1 ==> median_spec(s) == s[s.len() as int / 2],
        s.len() % 2 == 0 ==> median_spec(s) == ((spec_sat_add(
            s[s.len() as int / 2 - 1],
            s[s.len() as int / 2],
        ) as int) / 2) as u64,
{
    lemma_value_le_total();
    lemma_sorted_values_ensures(s);
    lemma_sorted_unique(s, sorted_values(s), value_le());
    assert(sorted_values(s) =~= s);
}

} // verus!
