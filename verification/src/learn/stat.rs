//! Statistics over a list of integers: the mode (the value that occurs most often).
//!
//! Values are counted in the order of their first occurrence; among values that
//! occur equally often, the one whose first occurrence comes last wins.
use vstd::prelude::*;

verus! {

/// Number of occurrences of `v` in `s`.
pub open spec fn occurrences(s: Seq<i32>, v: i32) -> nat
    decreases s.len(),
{
    if s.len() == 0 {
        0
    } else {
        occurrences(s.drop_last(), v) + (if s.last() == v {
            1nat
        } else {
            0nat
        })
    }
}

/// `m` is the mode of `s`: it occurs at `i` for the first time, no value occurs
/// more often, and every value that occurs as often first occurs at or before `i`.
pub open spec fn is_mode_at(s: Seq<i32>, m: i32, i: int) -> bool {
    &&& 0 <= i < s.len()
    &&& s[i] == m
    &&& forall|j: int| 0 <= j < i ==> s[j] != m
    &&& forall|k: int| 0 <= k < s.len() ==> occurrences(s, #[trigger] s[k]) <= occurrences(s, m)
    &&& forall|k: int|
        0 <= k < s.len() && occurrences(s, #[trigger] s[k]) == occurrences(s, m) ==> exists|j: int|
            0 <= j <= i && s[j] == s[k]
}

/// `m` is a mode of `s` in the sense of `is_mode_at`, for some index.
pub open spec fn is_mode(s: Seq<i32>, m: i32) -> bool {
    exists|i: int| is_mode_at(s, m, i)
}

proof fn lemma_occurrences_step(s: Seq<i32>, i: int, v: i32)
    requires
        0 <= i < s.len(),
    ensures
        occurrences(s.take(i + 1), v) == occurrences(s.take(i), v) + (if s[i] == v {
            1nat
        } else {
            0nat
        }),
{
    assert(s.take(i + 1).drop_last() =~= s.take(i));
}

proof fn lemma_occurrences_absent(s: Seq<i32>, v: i32)
    requires
        forall|j: int| 0 <= j < s.len() ==> s[j] != v,
    ensures
        occurrences(s, v) == 0,
    decreases s.len(),
{
    if s.len() > 0 {
        lemma_occurrences_absent(s.drop_last(), v);
    }
}

proof fn lemma_occurrences_bound(s: Seq<i32>, v: i32)
    ensures
        occurrences(s, v) <= s.len(),
    decreases s.len(),
{
    if s.len() > 0 {
        lemma_occurrences_bound(s.drop_last(), v);
    }
}

/// The tables record, for the first `i` values of `s`, each distinct value once
/// (in order of first occurrence), its count, and its first index.
pub open spec fn tally(s: Seq<i32>, i: int, keys: Seq<i32>, counts: Seq<usize>, firsts: Seq<usize>) -> bool {
    &&& keys.len() == counts.len()
    &&& keys.len() == firsts.len()
    &&& forall|t: int|
        0 <= t < keys.len() ==> {
            &&& (#[trigger] firsts[t]) < i
            &&& s[firsts[t] as int] == keys[t]
            &&& forall|j: int| 0 <= j < firsts[t] ==> s[j] != keys[t]
        }
    &&& forall|t: int| 0 <= t < keys.len() ==> #[trigger] counts[t] == occurrences(s.take(i), keys[t])
    &&& forall|t1: int, t2: int| 0 <= t1 < t2 < keys.len() ==> #[trigger] firsts[t1] < #[trigger] firsts[t2]
    &&& forall|j: int|
        #![trigger s[j]]
        0 <= j < i ==> exists|t: int| 0 <= t < keys.len() && #[trigger] keys[t] == s[j]
}

/// Counts every distinct value of `values`, in order of first occurrence.
fn tally_values(values: &Vec<i32>) -> (r: (Vec<i32>, Vec<usize>, Vec<usize>))
    ensures
        tally(values@, values@.len() as int, r.0@, r.1@, r.2@),
{
    let n = values.len();
    let ghost s = values@;
    let mut keys: Vec<i32> = Vec::new();
    let mut counts: Vec<usize> = Vec::new();
    let mut firsts: Vec<usize> = Vec::new();
    let mut i: usize = 0;
    while i < n
        invariant
            i <= n,
            n == s.len(),
            s == values@,
            tally(s, i as int, keys@, counts@, firsts@),
        decreases n - i,
    {
        let v = values[i];
        let ghost old_keys = keys@;
        let mut found = keys.len();
        let mut t: usize = 0;
        while t < keys.len()
            invariant
                t <= keys.len(),
                found <= keys.len(),
                found < keys.len() ==> keys@[found as int] == v,
                found == keys.len() ==> forall|u: int| 0 <= u < t ==> keys@[u] != v,
            decreases keys.len() - t,
        {
            if found == keys.len() && keys[t] == v {
                found = t;
            }
            t = t + 1;
        }
        assert forall|t1: int, t2: int|
            0 <= t1 < keys.len() && 0 <= t2 < keys.len() && t1 != t2 implies keys@[t1]
            != keys@[t2] by {
            if t1 < t2 {
                assert(firsts@[t1] < firsts@[t2]);
            } else {
                assert(firsts@[t2] < firsts@[t1]);
            }
        }
        if found < keys.len() {
            proof {
                lemma_occurrences_step(s, i as int, keys@[found as int]);
                lemma_occurrences_bound(s.take(i as int), keys@[found as int]);
            }
            let c = counts[found];
            counts.set(found, c + 1);
            assert forall|u: int| 0 <= u < keys.len() implies #[trigger] counts@[u]
                == occurrences(s.take(i + 1), keys@[u]) by {
                lemma_occurrences_step(s, i as int, keys@[u]);
            }
        } else {
            assert forall|j: int| 0 <= j < i implies s[j] != v by {
                let u = choose|u: int| 0 <= u < keys.len() && #[trigger] keys@[u] == s[j];
                assert(keys@[u] != v);
            }
            proof {
                lemma_occurrences_absent(s.take(i as int), v);
                lemma_occurrences_step(s, i as int, v);
            }
            keys.push(v);
            counts.push(1);
            firsts.push(i);
            assert forall|u: int| 0 <= u < keys.len() implies #[trigger] counts@[u]
                == occurrences(s.take(i + 1), keys@[u]) by {
                lemma_occurrences_step(s, i as int, keys@[u]);
            }
        }
        assert forall|j: int| #![trigger s[j]] 0 <= j < i + 1 implies exists|u: int|
            0 <= u < keys.len() && #[trigger] keys@[u] == s[j] by {
            if j == i {
                if found < old_keys.len() {
                    assert(keys@[found as int] == s[j]);
                } else {
                    assert(keys@[old_keys.len() as int] == s[j]);
                }
            } else {
                let u = choose|u: int| 0 <= u < old_keys.len() && #[trigger] old_keys[u] == s[j];
                assert(keys@[u] == s[j]);
            }
        }
        i = i + 1;
    }
    assert(s.take(n as int) =~= s);
    (keys, counts, firsts)
}

/// Index of the last largest count.
fn last_max_index(counts: &Vec<usize>) -> (b: usize)
    requires
        counts@.len() > 0,
    ensures
        b < counts@.len(),
        forall|u: int| 0 <= u < counts@.len() ==> counts@[u] <= counts@[b as int],
        forall|u: int| b < u < counts@.len() ==> counts@[u] < counts@[b as int],
{
    let m = counts.len();
    let mut b: usize = 0;
    let mut best = counts[0];
    for t in 1..m
        invariant
            m == counts@.len(),
            b < t,
            best == counts@[b as int],
            forall|u: int| 0 <= u < t ==> counts@[u] <= best,
            forall|u: int| b < u < t ==> counts@[u] < best,
    {
        if counts[t] >= best {
            b = t;
            best = counts[t];
        }
    }
    b
}

proof fn lemma_mode_from_tally(
    s: Seq<i32>,
    keys: Seq<i32>,
    counts: Seq<usize>,
    firsts: Seq<usize>,
    b: int,
)
    requires
        tally(s, s.len() as int, keys, counts, firsts),
        0 <= b < counts.len(),
        forall|u: int| 0 <= u < counts.len() ==> counts[u] <= counts[b],
        forall|u: int| b < u < counts.len() ==> counts[u] < counts[b],
    ensures
        is_mode_at(s, keys[b], firsts[b] as int),
{
    let mv = keys[b];
    let i = firsts[b] as int;
    let best = counts[b];
    assert(s.take(s.len() as int) =~= s);
    assert forall|k: int| 0 <= k < s.len() implies occurrences(s, #[trigger] s[k]) <= occurrences(
        s,
        mv,
    ) by {
        let u = choose|u: int| 0 <= u < keys.len() && #[trigger] keys[u] == s[k];
        assert(counts[u] <= best);
    }
    assert forall|k: int|
        0 <= k < s.len() && occurrences(s, #[trigger] s[k]) == occurrences(
            s,
            mv,
        ) implies exists|j: int| 0 <= j <= i && s[j] == s[k] by {
        let u = choose|u: int| 0 <= u < keys.len() && #[trigger] keys[u] == s[k];
        assert(counts[u] == best);
        if u > b {
            assert(counts[u] < best);
        }
        if u < b {
            assert(firsts[u] < firsts[b]);
        }
        assert(s[firsts[u] as int] == s[k]);
    }
}

/// Returns the mode of `values`, or `None` for an empty list.
pub fn mode(values: &Vec<i32>) -> (r: Option<i32>)
    ensures
        r is None <==> values@.len() == 0,
        r matches Some(m) ==> is_mode(values@, m),
{
    let n = values.len();
    if n == 0 {
        return None;
    }
    let (keys, counts, firsts) = tally_values(values);
    let ghost s0 = values@[0];
    assert(exists|t: int| 0 <= t < keys.len() && #[trigger] keys@[t] == values@[0]);
    let b = last_max_index(&counts);
    proof {
        lemma_mode_from_tally(values@, keys@, counts@, firsts@, b as int);
        let w = firsts@[b as int] as int;
        assert(is_mode_at(values@, keys@[b as int], w));
    }
    let m = keys[b];
    assert(is_mode(values@, m));
    Some(m)
}

/// The mode is unique: two values that both satisfy `is_mode` are equal, so the
/// contract of `mode` fixes its result.
pub proof fn law_mode_unique(s: Seq<i32>, m1: i32, m2: i32)
    requires
        is_mode(s, m1),
        is_mode(s, m2),
    ensures
        m1 == m2,
{
    let i1 = choose|i: int| is_mode_at(s, m1, i);
    let i2 = choose|i: int| is_mode_at(s, m2, i);
    assert(occurrences(s, s[i2]) <= occurrences(s, m1));
    assert(occurrences(s, s[i1]) <= occurrences(s, m2));
    let j1 = choose|j: int| 0 <= j <= i1 && s[j] == s[i2];
    let j2 = choose|j: int| 0 <= j <= i2 && s[j] == s[i1];
    if j1 < i2 {
        assert(s[j1] != m2);
    }
    if j2 < i1 {
        assert(s[j2] != m1);
    }
}

} // verus!
