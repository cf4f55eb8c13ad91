//! Quick sort of integers: choose a pivot, partition around it, sort both sides.
use vstd::prelude::*;

verus! {

broadcast use {
    vstd::seq_lib::group_to_multiset_ensures,
    vstd::multiset::group_multiset_axioms,
};

/// The values at `lo..hi` are in ascending order.
pub open spec fn sorted_between(s: Seq<i32>, lo: int, hi: int) -> bool {
    forall|i: int, j: int| lo <= i < j < hi ==> s[i] <= s[j]
}

/// `s` with the values at `i` and `j` exchanged.
pub open spec fn swapped(s: Seq<i32>, i: int, j: int) -> Seq<i32> {
    s.update(i, s[j]).update(j, s[i])
}

/// Exchanging two values keeps the multiset of values.
pub proof fn lemma_swapped_multiset(s: Seq<i32>, i: int, j: int)
    requires
        0 <= i < s.len(),
        0 <= j < s.len(),
    ensures
        swapped(s, i, j).to_multiset() == s.to_multiset(),
{
    let t = s.update(i, s[j]);
    assert(t[j] == s[j]);
    assert(t.to_multiset() == s.to_multiset().insert(s[j]).remove(s[i]));
    assert(swapped(s, i, j).to_multiset() == t.to_multiset().insert(s[i]).remove(t[j]));
    assert(swapped(s, i, j).to_multiset() =~= s.to_multiset());
}

/// Exchanging two values inside `lo..hi` keeps the multiset of that part.
pub proof fn lemma_swapped_part_multiset(s: Seq<i32>, i: int, j: int, lo: int, hi: int)
    requires
        0 <= lo <= i < hi,
        lo <= j < hi,
        hi <= s.len(),
    ensures
        swapped(s, i, j).subrange(lo, hi).to_multiset() == s.subrange(lo, hi).to_multiset(),
{
    let t = s.subrange(lo, hi);
    assert(swapped(s, i, j).subrange(lo, hi) =~= swapped(t, i - lo, j - lo));
    lemma_swapped_multiset(t, i - lo, j - lo);
}

/// Two sequences with the same values share an upper bound.
pub proof fn lemma_same_values_at_most(a: Seq<i32>, b: Seq<i32>, c: i32)
    requires
        a.to_multiset() == b.to_multiset(),
        forall|k: int| 0 <= k < b.len() ==> #[trigger] b[k] <= c,
    ensures
        forall|k: int| 0 <= k < a.len() ==> #[trigger] a[k] <= c,
{
    assert forall|k: int| 0 <= k < a.len() implies #[trigger] a[k] <= c by {
        assert(a.contains(a[k]));
        assert(b.to_multiset().count(a[k]) > 0);
        assert(b.contains(a[k]));
    }
}

/// Two sequences with the same values share a strict lower bound.
pub proof fn lemma_same_values_above(a: Seq<i32>, b: Seq<i32>, c: i32)
    requires
        a.to_multiset() == b.to_multiset(),
        forall|k: int| 0 <= k < b.len() ==> #[trigger] b[k] > c,
    ensures
        forall|k: int| 0 <= k < a.len() ==> #[trigger] a[k] > c,
{
    assert forall|k: int| 0 <= k < a.len() implies #[trigger] a[k] > c by {
        assert(a.contains(a[k]));
        assert(b.to_multiset().count(a[k]) > 0);
        assert(b.contains(a[k]));
    }
}

/// The part `lo..hi` is the part `lo..p` followed by the part `p..hi`.
pub proof fn lemma_split_multiset(s: Seq<i32>, lo: int, p: int, hi: int)
    requires
        0 <= lo <= p <= hi <= s.len(),
    ensures
        s.subrange(lo, hi).to_multiset() == s.subrange(lo, p).to_multiset().add(
            s.subrange(p, hi).to_multiset(),
        ),
{
    assert(s.subrange(lo, hi) =~= s.subrange(lo, p) + s.subrange(p, hi));
    vstd::seq_lib::lemma_multiset_commutative(s.subrange(lo, p), s.subrange(p, hi));
}

fn swap(values: &mut Vec<i32>, i: usize, j: usize)
    requires
        i < old(values).len(),
        j < old(values).len(),
    ensures
        final(values)@ == swapped(old(values)@, i as int, j as int),
{
    let a = values[i];
    let b = values[j];
    values.set(i, b);
    values.set(j, a);
}

/// The right walk of one step of choosing a pivot: from `r` down towards `l`,
/// past the values not less than the value at `l`.
pub open spec fn pivot_scan(s: Seq<i32>, l: int, r: int) -> int
    decreases r - l,
{
    if r > l && s[r] >= s[l] {
        pivot_scan(s, l, r - 1)
    } else {
        r
    }
}

/// The walk that chooses a pivot, from left position `l` and right position
/// `r`: the right walk stops at a value less than the one at `l`, which are
/// exchanged before `l` moves on, until the two walks meet at `l`. Gives the
/// values as they end up and the pivot (`None` for fewer than three values).
pub open spec fn pivot_walk(s: Seq<i32>, right: int, l: int, r: int) -> (Seq<i32>, Option<usize>)
    decreases right + 1 - l,
{
    if l > right || l < 0 {
        (s, None)
    } else {
        let r2 = pivot_scan(s, l, r);
        if r2 <= l {
            (s, if right > 1 { Some(l as usize) } else { None })
        } else {
            pivot_walk(swapped(s, l, r2), right, l + 1, r2)
        }
    }
}

/// The values and the pivot that choosing a pivot of `s` gives.
pub open spec fn spec_get_pivot(s: Seq<i32>) -> (Seq<i32>, Option<usize>) {
    if s.len() == 0 {
        (s, None)
    } else {
        pivot_walk(s, s.len() - 1, 0, s.len() - 1)
    }
}

/// Choose a pivot: walk from the left and from the right, exchanging a value
/// on the right that is less than the one on the left, until the two walks
/// meet. `None` where no further split is needed (fewer than three values),
/// otherwise the meeting point. The values are only rearranged, exactly as
/// `spec_get_pivot` describes.
pub fn get_pivot(values: &mut Vec<i32>) -> (r: Option<usize>)
    ensures
        (final(values)@, r) == spec_get_pivot(old(values)@),
        final(values)@.len() == old(values)@.len(),
        final(values)@.to_multiset() == old(values)@.to_multiset(),
        r is Some <==> old(values)@.len() >= 3,
        r matches Some(p) ==> p < old(values)@.len(),
{
    if values.len() == 0 {
        return None;
    }
    let right = values.len() - 1;
    let mut r = right;
    let mut l: usize = 0;
    while l <= right
        invariant
            right + 1 == values@.len(),
            values@.len() == old(values)@.len(),
            values@.to_multiset() == old(values)@.to_multiset(),
            l <= r <= right,
            spec_get_pivot(old(values)@) == pivot_walk(values@, right as int, l as int, r as int),
        decreases right + 1 - l,
    {
        let ghost r0 = r;
        while r > l && values[r] >= values[l]
            invariant
                right + 1 == values@.len(),
                l <= r <= r0 <= right,
                pivot_scan(values@, l as int, r0 as int) == pivot_scan(values@, l as int, r as int),
            decreases r,
        {
            r -= 1;
        }
        if r <= l {
            return if right > 1 { Some(l) } else { None };
        }
        proof {
            lemma_swapped_multiset(values@, l as int, r as int);
        }
        swap(values, l, r);
        l += 1;
    }
    None
}

/// Partition `lo..hi` around its last value: the values not above it come
/// first, then the pivot, then the values above it. Returns the pivot's place.
fn partition(values: &mut Vec<i32>, lo: usize, hi: usize) -> (p: usize)
    requires
        lo < hi <= old(values).len(),
    ensures
        lo <= p < hi,
        final(values)@.len() == old(values)@.len(),
        forall|k: int| 0 <= k < old(values)@.len() && !(lo <= k < hi) ==> final(values)@[k] == old(values)@[k],
        final(values)@.subrange(lo as int, hi as int).to_multiset()
            == old(values)@.subrange(lo as int, hi as int).to_multiset(),
        forall|k: int| lo <= k < p ==> final(values)@[k] <= final(values)@[p as int],
        forall|k: int| p < k < hi ==> final(values)@[k] > final(values)@[p as int],
{
    let pivot = values[hi - 1];
    let mut i = lo;
    let mut j = lo;
    while j < hi - 1
        invariant
            lo <= i <= j <= hi - 1,
            hi <= values@.len(),
            values@.len() == old(values)@.len(),
            values@[hi - 1] == pivot,
            forall|k: int| 0 <= k < old(values)@.len() && !(lo <= k < hi) ==> values@[k] == old(values)@[k],
            values@.subrange(lo as int, hi as int).to_multiset()
                == old(values)@.subrange(lo as int, hi as int).to_multiset(),
            forall|k: int| lo <= k < i ==> values@[k] <= pivot,
            forall|k: int| i <= k < j ==> values@[k] > pivot,
        decreases hi - 1 - j,
    {
        if values[j] <= pivot {
            proof {
                lemma_swapped_part_multiset(values@, i as int, j as int, lo as int, hi as int);
            }
            swap(values, i, j);
            i += 1;
        }
        j += 1;
    }
    proof {
        lemma_swapped_part_multiset(values@, i as int, hi - 1, lo as int, hi as int);
    }
    swap(values, i, hi - 1);
    i
}

/// Split `lo..hi` at a pivot and sort both sides.
fn split_and_sort(values: &mut Vec<i32>, lo: usize, hi: usize)
    requires
        lo <= hi <= old(values).len(),
    ensures
        final(values)@.len() == old(values)@.len(),
        forall|k: int| 0 <= k < old(values)@.len() && !(lo <= k < hi) ==> final(values)@[k] == old(values)@[k],
        final(values)@.subrange(lo as int, hi as int).to_multiset()
            == old(values)@.subrange(lo as int, hi as int).to_multiset(),
        sorted_between(final(values)@, lo as int, hi as int),
    decreases hi - lo,
{
    if hi - lo <= 1 {
        return;
    }
    let p = partition(values, lo, hi);
    let ghost v1 = values@;
    split_and_sort(values, lo, p);
    let ghost v2 = values@;
    split_and_sort(values, p + 1, hi);
    let ghost v3 = values@;
    proof {
        let piv = v1[p as int];
        assert(v3[p as int] == piv);
        let left1 = v1.subrange(lo as int, p as int);
        let left2 = v2.subrange(lo as int, p as int);
        let right1 = v1.subrange(p + 1, hi as int);
        let right2 = v2.subrange(p + 1, hi as int);
        let right3 = v3.subrange(p + 1, hi as int);
        // The left side keeps its values, all not above the pivot.
        assert(v3.subrange(lo as int, p as int) =~= left2);
        assert forall|k: int| 0 <= k < left1.len() implies #[trigger] left1[k] <= piv by {
            assert(left1[k] == v1[lo + k]);
        }
        lemma_same_values_at_most(left2, left1, piv);
        // The right side keeps its values, all above the pivot.
        assert(right2 =~= right1);
        assert forall|k: int| 0 <= k < right2.len() implies #[trigger] right2[k] > piv by {
            assert(right2[k] == v1[p + 1 + k]);
        }
        lemma_same_values_above(right3, right2, piv);
        assert forall|i: int, j: int| lo <= i < j < hi implies v3[i] <= v3[j] by {
            if j < p {
            } else if i < p {
                assert(v3[i] == left2[i - lo]);
                if j > p {
                    assert(v3[j] == right3[j - p - 1]);
                }
            } else if i == p {
                assert(v3[j] == right3[j - p - 1]);
            } else {
            }
        }
        // The values of the whole part are kept.
        lemma_split_multiset(v3, lo as int, p as int, hi as int);
        lemma_split_multiset(v3, p as int, p + 1, hi as int);
        lemma_split_multiset(v1, lo as int, p as int, hi as int);
        lemma_split_multiset(v1, p as int, p + 1, hi as int);
        assert(v3.subrange(p as int, p + 1) =~= v1.subrange(p as int, p + 1));
        assert(v2.subrange(p + 1, hi as int) =~= v1.subrange(p + 1, hi as int));
    }
}

/// Quick sort: the values, rearranged into ascending order.
pub fn sort_quick(values: &mut Vec<i32>)
    ensures
        final(values)@.to_multiset() == old(values)@.to_multiset(),
        forall|i: int, j: int| 0 <= i < j < final(values)@.len() ==> final(values)@[i] <= final(values)@[j],
{
    let n = values.len();
    split_and_sort(values, 0, n);
    proof {
        assert(values@.subrange(0, n as int) =~= values@);
        assert(old(values)@.subrange(0, n as int) =~= old(values)@);
    }
}

} // verus!
