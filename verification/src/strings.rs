//! Character and string primitives shared by the text-processing modules.
//!
//! The Unicode character classes and case mapping come from std and are
//! named here; their ASCII behaviour is stated exactly.
use vstd::prelude::*;
use vstd::string::StrSliceExecFns;

verus! {

/// ASCII letter (`char::is_ascii_alphabetic`).
pub open spec fn is_ascii_alpha(c: char) -> bool {
    ('a' <= c && c <= 'z') || ('A' <= c && c <= 'Z')
}

/// ASCII decimal digit.
pub open spec fn is_ascii_digit(c: char) -> bool {
    '0' <= c && c <= '9'
}

/// A character in the ASCII range.
pub open spec fn is_ascii_char(c: char) -> bool {
    (c as u32) < 128
}

/// Every character of the sequence is ASCII.
pub open spec fn all_ascii(s: Seq<char>) -> bool {
    forall|i: int| 0 <= i < s.len() ==> is_ascii_char(#[trigger] s[i])
}

/// ASCII lowercase mapping: `A`..`Z` become `a`..`z`, every other character stays.
pub open spec fn ascii_lower(c: char) -> char {
    if 'A' <= c && c <= 'Z' {
        ((c as u32) + 32) as char
    } else {
        c
    }
}

/// The predicate "is an ASCII letter", as a value.
pub open spec fn ascii_alpha_pred() -> spec_fn(char) -> bool {
    |c: char| is_ascii_alpha(c)
}

/// The predicate "is not an ASCII letter", as a value.
pub open spec fn non_ascii_alpha_pred() -> spec_fn(char) -> bool {
    |c: char| !is_ascii_alpha(c)
}

/// Unicode `Alphanumeric` property of a character, as `char::is_alphanumeric` decides it.
pub uninterp spec fn unicode_alphanumeric(c: char) -> bool;

/// Unicode `Alphabetic` property of a character, as `char::is_alphabetic` decides it.
pub uninterp spec fn unicode_alphabetic(c: char) -> bool;

/// Unicode lowercase of a string, as `str::to_lowercase` computes it.
pub uninterp spec fn unicode_lowercase(s: Seq<char>) -> Seq<char>;

/// `char::is_alphanumeric`: the Unicode `Alphabetic` or `Numeric` property.
/// The contract names the result and states the ASCII case, where it is
/// exactly the ASCII letters and digits; beyond ASCII nothing is stated.
#[verifier::external_body]
pub(crate) fn is_alphanumeric(c: char) -> (r: bool)
    ensures
        r == unicode_alphanumeric(c),
        is_ascii_char(c) ==> (r <==> (is_ascii_alpha(c) || is_ascii_digit(c))),
{
    c.is_alphanumeric()
}

/// `char::is_alphabetic`: the Unicode `Alphabetic` property.
/// The contract names the result and states the ASCII case, where it is
/// exactly the ASCII letters; beyond ASCII nothing is stated.
#[verifier::external_body]
pub(crate) fn is_alphabetic(c: char) -> (r: bool)
    ensures
        r == unicode_alphabetic(c),
        is_ascii_char(c) ==> (r <==> is_ascii_alpha(c)),
{
    c.is_alphabetic()
}

/// `str::to_lowercase`: Unicode lowercase mapping of the whole string.
/// The contract names the result and states the all-ASCII case, where each
/// character is mapped by `ascii_lower`; other strings are left to the name.
#[verifier::external_body]
pub(crate) fn to_lowercase(s: &str) -> (r: String)
    ensures
        r@ == unicode_lowercase(s@),
        all_ascii(s@) ==> r@ == s@.map_values(|c: char| ascii_lower(c)),
{
    s.to_lowercase()
}

/// `String::push`: appends one character.
#[verifier::external_body]
pub(crate) fn push_char(s: &mut String, c: char)
    ensures
        final(s)@ == old(s)@.push(c),
{
    s.push(c);
}

/// An owned copy of a string slice.
pub fn to_owned_string(s: &str) -> (r: String)
    ensures
        r@ == s@,
{
    s.to_owned()
}

/// ASCII letter test (`char::is_ascii_alphabetic`).
pub fn is_ascii_alphabetic(c: char) -> (r: bool)
    ensures
        r == is_ascii_alpha(c),
{
    (c >= 'a' && c <= 'z') || (c >= 'A' && c <= 'Z')
}

/// The characters of a string slice, in order.
pub fn chars_of(s: &str) -> (r: Vec<char>)
    ensures
        r@ == s@,
{
    let mut r: Vec<char> = Vec::new();
    for c in it: s.chars()
        invariant
            r@ == it.seq().take(it.index() as int),
            it.seq() == s@,
    {
        r.push(c);
    }
    r
}

/// A string made of the given characters.
pub fn string_of(cs: &Vec<char>) -> (r: String)
    ensures
        r@ == cs@,
{
    let mut r = String::new();
    let n = cs.len();
    for i in 0..n
        invariant
            n == cs@.len(),
            r@ == cs@.take(i as int),
    {
        push_char(&mut r, cs[i]);
        assert(cs@.take(i + 1) == cs@.take(i as int).push(cs@[i as int]));
    }
    assert(cs@.take(n as int) == cs@);
    r
}

/// `needle` occurs in `hay` starting at position `i`.
pub open spec fn occurs_at(hay: Seq<char>, needle: Seq<char>, i: int) -> bool {
    0 <= i && i + needle.len() <= hay.len() && hay.subrange(i, i + needle.len()) == needle
}

/// `needle` occurs somewhere in `hay` (`str::contains`); the empty needle occurs everywhere.
pub open spec fn has_substring(hay: Seq<char>, needle: Seq<char>) -> bool {
    exists|i: int| occurs_at(hay, needle, i)
}

/// Substring test (`str::contains` with a string pattern).
pub fn contains_str(hay: &str, needle: &str) -> (r: bool)
    ensures
        r == has_substring(hay@, needle@),
{
    let h = chars_of(hay);
    let n = chars_of(needle);
    if n.len() > h.len() {
        proof {
            assert forall|i: int| !occurs_at(hay@, needle@, i) by {}
        }
        return false;
    }
    let hl = h.len();
    let last = hl - n.len();
    let mut i: usize = 0;
    loop
        invariant
            h@ == hay@,
            n@ == needle@,
            n@.len() <= h@.len(),
            hl == h@.len(),
            last == h@.len() - n@.len(),
            i <= last,
            forall|k: int| 0 <= k < i ==> !occurs_at(hay@, needle@, k),
        decreases last - i,
    {
        let mut j: usize = 0;
        while j < n.len() && h[i + j] == n[j]
            invariant
                h@ == hay@,
                n@ == needle@,
                n@.len() <= h@.len(),
                hl == h@.len(),
                i <= last,
                last == h@.len() - n@.len(),
                j <= n@.len(),
                forall|k: int| 0 <= k < j ==> h@[i + k] == n@[k],
            decreases n@.len() - j,
        {
            j = j + 1;
        }
        if j == n.len() {
            assert(hay@.subrange(i as int, i + needle@.len()) =~= needle@);
            assert(occurs_at(hay@, needle@, i as int));
            return true;
        }
        assert(hay@.subrange(i as int, i + needle@.len())[j as int] != needle@[j as int]);
        if i == last {
            proof {
                assert forall|k: int| !occurs_at(hay@, needle@, k) by {
                    if 0 <= k < i {
                    }
                }
            }
            return false;
        }
        i = i + 1;
    }
}

/// Compares two strings for equality.
pub fn str_eq(a: &str, b: &str) -> (r: bool)
    ensures
        r == (a@ == b@),
{
    let x = chars_of(a);
    let y = chars_of(b);
    if x.len() != y.len() {
        return false;
    }
    let mut i: usize = 0;
    while i < x.len()
        invariant
            i <= x@.len(),
            x@.len() == y@.len(),
            x@ == a@,
            y@ == b@,
            forall|j: int| 0 <= j < i ==> x@[j] == y@[j],
        decreases x@.len() - i,
    {
        if x[i] != y[i] {
            return false;
        }
        i = i + 1;
    }
    assert(x@ =~= y@);
    true
}

/// The value of a decimal digit.
pub open spec fn digit_value(c: char) -> nat {
    ((c as u32) - ('0' as u32)) as nat
}

/// Every character is an ASCII digit.
pub open spec fn all_digits(s: Seq<char>) -> bool {
    forall|i: int| 0 <= i < s.len() ==> is_ascii_digit(#[trigger] s[i])
}

/// The value of a string of decimal digits (leading zeros allowed).
pub open spec fn digits_value(s: Seq<char>) -> nat
    decreases s.len(),
{
    if s.len() == 0 {
        0
    } else {
        digits_value(s.drop_last()) * 10 + digit_value(s.last())
    }
}

/// The value `str::parse` gives an unsigned integer text: an optional `'+'`
/// and at least one decimal digit, nothing else; `None` for any other text.
/// The range of the target type is checked apart.
pub open spec fn unsigned_value(s: Seq<char>) -> Option<nat> {
    let d = if s.len() > 0 && s[0] == '+' {
        s.drop_first()
    } else {
        s
    };
    if d.len() > 0 && all_digits(d) {
        Some(digits_value(d))
    } else {
        None
    }
}

/// A longer digit string is worth at least as much as its prefix.
pub proof fn lemma_digits_value_prefix(s: Seq<char>, i: int)
    requires
        0 <= i <= s.len(),
    ensures
        digits_value(s.take(i)) <= digits_value(s),
    decreases s.len(),
{
    if i < s.len() {
        assert(s.drop_last().take(i) =~= s.take(i));
        lemma_digits_value_prefix(s.drop_last(), i);
    } else {
        assert(s.take(i) =~= s);
    }
}

/// Parses an unsigned decimal text no greater than `max` (`str::parse` for an
/// unsigned type whose largest value is `max`).
pub fn parse_bounded(s: &str, max: u64) -> (r: Option<u64>)
    ensures
        r is Some <==> (unsigned_value(s@) matches Some(v) && v <= max),
        r matches Some(x) ==> unsigned_value(s@) == Some(x as nat),
{
    let cs = chars_of(s);
    let n = cs.len();
    let start: usize = if n > 0 && cs[0] == '+' {
        1
    } else {
        0
    };
    let ghost d = if s@.len() > 0 && s@[0] == '+' {
        s@.drop_first()
    } else {
        s@
    };
    assert(d =~= s@.skip(start as int));
    if start == n {
        assert(d.len() == 0);
        assert(unsigned_value(s@) is None);
        return None;
    }
    let mut acc: u64 = 0;
    let mut k: usize = start;
    assert(d.take(0) =~= Seq::<char>::empty());
    while k < n
        invariant
            cs@ == s@,
            n == s@.len(),
            start <= k <= n,
            start < n,
            d =~= s@.skip(start as int),
            d == (if s@.len() > 0 && s@[0] == '+' {
                s@.drop_first()
            } else {
                s@
            }),
            acc as nat == digits_value(d.take(k - start)),
            acc <= max,
            forall|i: int| 0 <= i < k - start ==> is_ascii_digit(#[trigger] d[i]),
        decreases n - k,
    {
        let c = cs[k];
        if !(c >= '0' && c <= '9') {
            proof {
                assert(!is_ascii_digit(d[k - start]));
                assert(!all_digits(d));
                assert(unsigned_value(s@) is None);
            }
            return None;
        }
        let dig: u64 = (c as u32 - '0' as u32) as u64;
        let ghost t = d.take(k - start + 1);
        proof {
            assert(t.drop_last() =~= d.take(k - start));
            assert(t.last() == c);
            assert(digits_value(t) == acc * 10 + dig);
        }
        if dig > max || acc > (max - dig) / 10 {
            proof {
                if dig <= max {
                    assert(acc * 10 + dig > max) by (nonlinear_arith)
                        requires
                            acc > (max - dig) / 10,
                            dig <= max,
                    ;
                }
                lemma_digits_value_prefix(d, k - start + 1);
                assert(digits_value(d) > max);
                if all_digits(d) {
                    assert(unsigned_value(s@) == Some(digits_value(d)));
                } else {
                    assert(unsigned_value(s@) is None);
                }
            }
            return None;
        }
        proof {
            assert(acc * 10 + dig <= max) by (nonlinear_arith)
                requires
                    acc <= (max - dig) / 10,
                    dig <= max,
            ;
        }
        acc = acc * 10 + dig;
        k = k + 1;
    }
    assert(d.take(n - start) =~= d);
    assert(all_digits(d));
    assert(unsigned_value(s@) == Some(acc as nat));
    Some(acc)
}

/// Unicode `White_Space` property of a character, as `char::is_whitespace` decides it.
pub uninterp spec fn unicode_whitespace(c: char) -> bool;

/// `char::is_whitespace`: the Unicode `White_Space` property.
/// The contract names the result and states the ASCII case, where it is
/// exactly the space and the characters from tab to carriage return.
#[verifier::external_body]
pub(crate) fn is_whitespace(c: char) -> (r: bool)
    ensures
        r == unicode_whitespace(c),
        is_ascii_char(c) ==> (r <==> (c == ' ' || ('\t' <= c && c <= '\r'))),
{
    c.is_whitespace()
}

/// Position of the first non-whitespace character at or after `i`, or the length.
pub open spec fn skip_space(s: Seq<char>, i: int) -> int
    decreases s.len() - i,
{
    if i >= s.len() {
        s.len() as int
    } else if unicode_whitespace(s[i]) {
        skip_space(s, i + 1)
    } else {
        i
    }
}

/// Position just after the last non-whitespace character before `j`, or 0.
pub open spec fn skip_space_back(s: Seq<char>, j: int) -> int
    decreases j,
{
    if j <= 0 {
        0
    } else if unicode_whitespace(s[j - 1]) {
        skip_space_back(s, j - 1)
    } else {
        j
    }
}

/// The text without leading and trailing whitespace (`str::trim`).
pub open spec fn trimmed(s: Seq<char>) -> Seq<char> {
    let a = skip_space(s, 0);
    if a >= s.len() {
        Seq::empty()
    } else {
        s.subrange(a, skip_space_back(s, s.len() as int))
    }
}

proof fn lemma_skip_space(s: Seq<char>, i: int)
    requires
        0 <= i <= s.len(),
    ensures
        i <= skip_space(s, i) <= s.len(),
        skip_space(s, i) < s.len() ==> !unicode_whitespace(s[skip_space(s, i)]),
    decreases s.len() - i,
{
    if i < s.len() && unicode_whitespace(s[i]) {
        lemma_skip_space(s, i + 1);
    }
}

proof fn lemma_skip_space_back(s: Seq<char>, j: int, a: int)
    requires
        0 <= a < j <= s.len(),
        !unicode_whitespace(s[a]),
    ensures
        a < skip_space_back(s, j) <= j,
    decreases j,
{
    if unicode_whitespace(s[j - 1]) {
        lemma_skip_space_back(s, j - 1, a);
    }
}

proof fn lemma_skip_space_back_bound(s: Seq<char>, j: int)
    requires
        0 <= j <= s.len(),
    ensures
        skip_space_back(s, j) <= j,
    decreases j,
{
    if j > 0 && unicode_whitespace(s[j - 1]) {
        lemma_skip_space_back_bound(s, j - 1);
    }
}

/// The text without leading and trailing whitespace (`str::trim`).
pub fn trim(s: &str) -> (r: &str)
    ensures
        r@ == trimmed(s@),
{
    let cs = chars_of(s);
    let n = cs.len();
    let mut a: usize = 0;
    while a < n && is_whitespace(cs[a])
        invariant
            cs@ == s@,
            n == s@.len(),
            a <= n,
            skip_space(s@, 0) == skip_space(s@, a as int),
        decreases n - a,
    {
        a = a + 1;
    }
    if a == n {
        return s.substring_char(0, 0);
    }
    let mut b: usize = n;
    proof {
        lemma_skip_space_back(s@, n as int, a as int);
    }
    while b > a && is_whitespace(cs[b - 1])
        invariant
            cs@ == s@,
            n == s@.len(),
            a < n,
            a <= b <= n,
            !unicode_whitespace(s@[a as int]),
            skip_space_back(s@, n as int) == skip_space_back(s@, b as int),
        decreases b,
    {
        b = b - 1;
    }
    proof {
        if b == a {
            lemma_skip_space_back_bound(s@, a as int);
            assert(false);
        }
    }
    s.substring_char(a, b)
}

} // verus!
