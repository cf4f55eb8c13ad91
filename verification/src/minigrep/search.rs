//! Searching the lines of a text for a query string.
//!
//! Lines are those of `str::lines`: the text is split at `'\n'`, a `'\r'`
//! just before a `'\n'` is dropped, and a final `'\n'` does not start an
//! empty last line.
use vstd::prelude::*;
use vstd::string::StrSliceExecFns;
use crate::strings::{
    all_ascii, ascii_lower, chars_of, contains_str, has_substring, occurs_at, to_lowercase,
    unicode_lowercase,
};

verus! {

/// Position of the first `'\n'` at or after `i`, or the length of `s` when there is none.
pub open spec fn next_newline(s: Seq<char>, i: int) -> int
    decreases s.len() - i,
{
    if i >= s.len() {
        s.len() as int
    } else if s[i] == '\n' {
        i
    } else {
        next_newline(s, i + 1)
    }
}

pub proof fn lemma_next_newline_bounds(s: Seq<char>, i: int)
    requires
        0 <= i <= s.len(),
    ensures
        i <= next_newline(s, i) <= s.len(),
        next_newline(s, i) < s.len() ==> s[next_newline(s, i)] == '\n',
        forall|k: int| i <= k < next_newline(s, i) ==> s[k] != '\n',
    decreases s.len() - i,
{
    if i < s.len() && s[i] != '\n' {
        lemma_next_newline_bounds(s, i + 1);
    }
}

/// The line from `start` up to the line end at `e`: a `'\r'` just before a
/// `'\n'` at `e` is not part of the line.
pub open spec fn line_between(s: Seq<char>, start: int, e: int) -> Seq<char> {
    if e < s.len() && start < e && s[e - 1] == '\r' {
        s.subrange(start, e - 1)
    } else {
        s.subrange(start, e)
    }
}

/// The lines of `s` that start at or after position `start`.
pub open spec fn lines_from(s: Seq<char>, start: int) -> Seq<Seq<char>>
    decreases s.len() - start,
{
    if start < 0 || start >= s.len() {
        Seq::empty()
    } else {
        let e = next_newline(s, start);
        proof {
            lemma_next_newline_bounds(s, start);
        }
        if e >= s.len() {
            seq![line_between(s, start, e)]
        } else {
            seq![line_between(s, start, e)] + lines_from(s, e + 1)
        }
    }
}

/// The lines of `s`, as `str::lines` yields them.
pub open spec fn lines_of(s: Seq<char>) -> Seq<Seq<char>> {
    lines_from(s, 0)
}

/// The text of each string slice.
pub open spec fn line_views(v: Seq<&str>) -> Seq<Seq<char>> {
    v.map_values(|l: &str| l@)
}

/// The test of `find_line`: the line contains the query.
pub open spec fn contains_query(query: Seq<char>) -> spec_fn(Seq<char>) -> bool {
    |l: Seq<char>| has_substring(l, query)
}

/// The test of `find_line_ci`: the lowercased line contains the lowercased query.
pub open spec fn contains_query_ci(query: Seq<char>) -> spec_fn(Seq<char>) -> bool {
    |l: Seq<char>| has_substring(unicode_lowercase(l), unicode_lowercase(query))
}

/// ASCII lowercase of every character.
pub open spec fn ascii_lowercase(s: Seq<char>) -> Seq<char> {
    s.map_values(|c: char| ascii_lower(c))
}

/// The test of `find_line_ci` on ASCII text: the ASCII-lowercased line
/// contains the ASCII-lowercased query.
pub open spec fn contains_query_ascii_ci(query: Seq<char>) -> spec_fn(Seq<char>) -> bool {
    |l: Seq<char>| has_substring(ascii_lowercase(l), ascii_lowercase(query))
}

/// Every line of an ASCII text is ASCII.
pub proof fn lemma_lines_ascii(s: Seq<char>, start: int)
    requires
        all_ascii(s),
    ensures
        forall|k: int| 0 <= k < lines_from(s, start).len() ==> all_ascii(#[trigger] lines_from(s, start)[k]),
    decreases s.len() - start,
{
    if 0 <= start < s.len() {
        let e = next_newline(s, start);
        lemma_next_newline_bounds(s, start);
        let l = line_between(s, start, e);
        assert(all_ascii(l));
        if e < s.len() {
            lemma_lines_ascii(s, e + 1);
            let rest = lines_from(s, e + 1);
            assert forall|k: int| 0 <= k < lines_from(s, start).len() implies all_ascii(
                #[trigger] lines_from(s, start)[k],
            ) by {
                if k > 0 {
                    assert(lines_from(s, start)[k] == rest[k - 1]);
                }
            }
        }
    }
}

/// The lines of a text, as slices of it (`str::lines`).
pub fn lines<'a>(content: &'a str) -> (r: Vec<&'a str>)
    ensures
        line_views(r@) == lines_of(content@),
{
    let ghost s = content@;
    let cs = chars_of(content);
    let n = cs.len();
    let mut r: Vec<&'a str> = Vec::new();
    let mut start: usize = 0;
    assert(line_views(r@) =~= Seq::<Seq<char>>::empty());
    while start < n
        invariant
            cs@ == s,
            s == content@,
            n == s.len(),
            start <= n,
            line_views(r@) + lines_from(s, start as int) == lines_of(s),
        decreases n - start,
    {
        let mut e: usize = start;
        proof {
            lemma_next_newline_bounds(s, start as int);
        }
        while e < n && cs[e] != '\n'
            invariant
                cs@ == s,
                n == s.len(),
                start <= e <= n,
                next_newline(s, start as int) == next_newline(s, e as int),
            decreases n - e,
        {
            e = e + 1;
        }
        let end = if e < n && start < e && cs[e - 1] == '\r' {
            e - 1
        } else {
            e
        };
        let line = content.substring_char(start, end);
        let ghost before = r@;
        r.push(line);
        proof {
            assert(line@ == line_between(s, start as int, e as int));
            assert(line_views(r@) =~= line_views(before).push(line@));
            if e < n {
                assert(lines_from(s, start as int) == seq![line_between(s, start as int, e as int)]
                    + lines_from(s, e + 1));
            } else {
                assert(lines_from(s, start as int) == seq![line_between(s, start as int, e as int)]);
                assert(lines_from(s, e + 1) =~= Seq::<Seq<char>>::empty());
            }
            assert(line_views(before) + lines_from(s, start as int) =~= line_views(r@)
                + lines_from(s, e + 1));
        }
        if e < n {
            start = e + 1;
        } else {
            start = n;
        }
    }
    assert(line_views(r@) + lines_from(s, start as int) =~= line_views(r@));
    r
}

/// Keeping the lines that pass a test, one line at a time.
proof fn lemma_filter_step(v: Seq<Seq<char>>, i: int, p: spec_fn(Seq<char>) -> bool)
    requires
        0 <= i < v.len(),
    ensures
        v.take(i + 1).filter(p) == (if p(v[i]) {
            v.take(i).filter(p).push(v[i])
        } else {
            v.take(i).filter(p)
        }),
{
    assert(v.take(i + 1) =~= v.take(i).push(v[i]));
    v.take(i).lemma_filter_push(v[i], p);
}

/// The lines of `content` that contain `query`, in order.
pub fn find_line<'a>(query: &str, content: &'a str) -> (r: Vec<&'a str>)
    ensures
        line_views(r@) == lines_of(content@).filter(contains_query(query@)),
{
    let all = lines(content);
    let ghost v = line_views(all@);
    let ghost p = contains_query(query@);
    let mut r: Vec<&'a str> = Vec::new();
    let n = all.len();
    assert(v.take(0).filter(p) =~= Seq::<Seq<char>>::empty());
    assert(line_views(r@) =~= Seq::<Seq<char>>::empty());
    for i in 0..n
        invariant
            n == all@.len(),
            v == line_views(all@),
            p == contains_query(query@),
            line_views(r@) == v.take(i as int).filter(p),
    {
        let line = all[i];
        let ghost before = r@;
        proof {
            lemma_filter_step(v, i as int, p);
        }
        if contains_str(line, query) {
            r.push(line);
            assert(line_views(r@) =~= line_views(before).push(line@));
        }
    }
    assert(v.take(n as int) =~= v);
    r
}

/// The lines of `content` that contain `query` when both are lowercased, in order.
/// On ASCII text, lowercasing is the ASCII mapping.
pub fn find_line_ci<'a>(query: &str, content: &'a str) -> (r: Vec<&'a str>)
    ensures
        line_views(r@) == lines_of(content@).filter(contains_query_ci(query@)),
        all_ascii(query@) && all_ascii(content@) ==> line_views(r@) == lines_of(content@).filter(
            contains_query_ascii_ci(query@),
        ),
{
    let ghost ascii = all_ascii(query@) && all_ascii(content@);
    proof {
        if ascii {
            lemma_lines_ascii(content@, 0);
        }
    }
    let q = to_lowercase(query);
    let all = lines(content);
    assert(q@ == unicode_lowercase(query@));
    let ghost v = line_views(all@);
    let ghost p = contains_query_ci(query@);
    let ghost p2 = contains_query_ascii_ci(query@);
    let mut r: Vec<&'a str> = Vec::new();
    let n = all.len();
    assert(v.take(0).filter(p) =~= Seq::<Seq<char>>::empty());
    assert(v.take(0).filter(p2) =~= Seq::<Seq<char>>::empty());
    assert(line_views(r@) =~= Seq::<Seq<char>>::empty());
    for i in 0..n
        invariant
            n == all@.len(),
            v == line_views(all@),
            p == contains_query_ci(query@),
            p2 == contains_query_ascii_ci(query@),
            q@ == unicode_lowercase(query@),
            ascii == (all_ascii(query@) && all_ascii(content@)),
            ascii ==> q@ == ascii_lowercase(query@),
            ascii ==> forall|k: int| 0 <= k < v.len() ==> all_ascii(#[trigger] v[k]),
            line_views(r@) == v.take(i as int).filter(p),
            ascii ==> line_views(r@) == v.take(i as int).filter(p2),
    {
        let line = all[i];
        let ghost before = r@;
        proof {
            lemma_filter_step(v, i as int, p);
            lemma_filter_step(v, i as int, p2);
            assert(v[i as int] == line@);
        }
        let lower = to_lowercase(line);
        if contains_str(lower.as_str(), q.as_str()) {
            r.push(line);
            assert(line_views(r@) =~= line_views(before).push(line@));
        }
    }
    assert(v.take(n as int) =~= v);
    r
}

/// An occurrence of the query in a line is an occurrence of the lowercased
/// query in the lowercased line, at the same place.
proof fn lemma_occurrence_survives_lowercase(l: Seq<char>, q: Seq<char>, i: int)
    requires
        occurs_at(l, q, i),
    ensures
        occurs_at(ascii_lowercase(l), ascii_lowercase(q), i),
{
    assert(ascii_lowercase(l).subrange(i, i + q.len()) =~= ascii_lowercase(q));
}

/// On ASCII text the case-insensitive search finds every line that the exact
/// search finds: each line of `find_line` is also a line of `find_line_ci`.
pub proof fn law_case_insensitive_search_finds_exact_matches(query: Seq<char>, content: Seq<char>)
    ensures
        forall|l: Seq<char>|
            lines_of(content).filter(contains_query(query)).contains(l) ==> #[trigger] lines_of(
                content,
            ).filter(contains_query_ascii_ci(query)).contains(l),
{
    let ls = lines_of(content);
    let p = contains_query(query);
    let p2 = contains_query_ascii_ci(query);
    assert forall|l: Seq<char>| ls.filter(p).contains(l) implies #[trigger] ls.filter(p2).contains(
        l,
    ) by {
        let w = choose|w: int| 0 <= w < ls.filter(p).len() && ls.filter(p)[w] == l;
        ls.lemma_filter_pred(p, w);
        ls.lemma_filter_contains_rev(p, l);
        let j = choose|j: int| 0 <= j < ls.len() && ls[j] == l;
        let i = choose|i: int| occurs_at(l, query, i);
        lemma_occurrence_survives_lowercase(l, query, i);
        assert(p2(l));
        ls.lemma_filter_contains(p2, j);
    }
}


/// Filtering by a test that implies another is the same before and after
/// filtering by the other.
pub proof fn lemma_filter_of_filter(s: Seq<Seq<char>>, p: spec_fn(Seq<char>) -> bool, q: spec_fn(Seq<char>) -> bool)
    requires
        forall|x: Seq<char>| #[trigger] q(x) ==> p(x),
    ensures
        s.filter(p).filter(q) == s.filter(q),
    decreases s.len(),
{
    reveal_with_fuel(Seq::<_>::filter, 1);
    if s.len() > 0 {
        let t = s.drop_last();
        let x = s.last();
        lemma_filter_of_filter(t, p, q);
        if p(x) {
            assert(t.filter(p).push(x).drop_last() =~= t.filter(p));
            assert(s.filter(p) == t.filter(p).push(x));
            assert(s.filter(p).filter(q) == (if q(x) {
                t.filter(p).filter(q).push(x)
            } else {
                t.filter(p).filter(q)
            }));
        }
    } else {
        assert(s.filter(p) =~= Seq::<Seq<char>>::empty());
    }
}

/// The exact search gives the lines of the case-insensitive search (ASCII
/// rules) that hold the query as it is, in the same order: its result is the
/// part of `find_line_ci`'s that contains the query exactly.
pub proof fn law_exact_search_is_part_of_case_insensitive(query: Seq<char>, content: Seq<char>)
    ensures
        lines_of(content).filter(contains_query_ascii_ci(query)).filter(contains_query(query))
            == lines_of(content).filter(contains_query(query)),
{
    let p = contains_query_ascii_ci(query);
    let q = contains_query(query);
    assert forall|l: Seq<char>| #[trigger] q(l) implies p(l) by {
        let i = choose|i: int| occurs_at(l, query, i);
        lemma_occurrence_survives_lowercase(l, query, i);
    }
    lemma_filter_of_filter(lines_of(content), p, q);
}

/// ASCII uppercase mapping: `a`..`z` become `A`..`Z`, every other character stays.
pub open spec fn ascii_upper(c: char) -> char {
    if 'a' <= c && c <= 'z' {
        ((c as u32) - 32) as char
    } else {
        c
    }
}

/// ASCII uppercase of every character (`str::to_ascii_uppercase`).
pub open spec fn ascii_uppercase(s: Seq<char>) -> Seq<char> {
    s.map_values(|c: char| ascii_upper(c))
}

/// The case of the query does not matter to the case-insensitive search
/// (ASCII rules): the query in capitals finds the same lines.
pub proof fn law_case_insensitive_search_ignores_query_case(query: Seq<char>, content: Seq<char>)
    ensures
        lines_of(content).filter(contains_query_ascii_ci(ascii_uppercase(query)))
            == lines_of(content).filter(contains_query_ascii_ci(query)),
{
    assert(ascii_lowercase(ascii_uppercase(query)) =~= ascii_lowercase(query)) by {
        assert forall|k: int| 0 <= k < query.len() implies #[trigger] ascii_lower(ascii_upper(query[k]))
            == ascii_lower(query[k]) by {
            let c = query[k];
            if 'a' <= c && c <= 'z' {
                assert(ascii_upper(c) as u32 == c as u32 - 32);
            }
        }
        assert forall|k: int| 0 <= k < query.len() implies #[trigger] ascii_lowercase(ascii_uppercase(query))[k]
            == ascii_lowercase(query)[k] by {
            assert(ascii_uppercase(query)[k] == ascii_upper(query[k]));
        }
    }
    assert(contains_query_ascii_ci(ascii_uppercase(query)) =~= contains_query_ascii_ci(query));
}

} // verus!
