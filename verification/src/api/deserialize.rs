//! The session token of a request: from the `Authorization` cookie, else from
//! the `Authorization` header, else empty.
use vstd::prelude::*;
use vstd::string::StrSliceExecFns;
use crate::strings::{chars_of, push_char, trim, trimmed, to_owned_string, string_of};

verus! {

/// Position of the first `sep` at or after `i`, or the length when there is none.
pub open spec fn next_sep(s: Seq<char>, sep: char, i: int) -> int
    decreases s.len() - i,
{
    if i >= s.len() {
        s.len() as int
    } else if s[i] == sep {
        i
    } else {
        next_sep(s, sep, i + 1)
    }
}

pub proof fn lemma_next_sep(s: Seq<char>, sep: char, i: int)
    requires
        0 <= i <= s.len(),
    ensures
        i <= next_sep(s, sep, i) <= s.len(),
    decreases s.len() - i,
{
    if i < s.len() && s[i] != sep {
        lemma_next_sep(s, sep, i + 1);
    }
}

/// The pieces of `s` from `start` on, between the separators (`str::split`):
/// there is always a last piece, empty when `s` ends with the separator.
pub open spec fn pieces_from(s: Seq<char>, sep: char, start: int) -> Seq<Seq<char>>
    decreases s.len() + 1 - start,
{
    if start < 0 || start > s.len() {
        Seq::empty()
    } else {
        let e = next_sep(s, sep, start);
        proof {
            lemma_next_sep(s, sep, start);
        }
        if e >= s.len() {
            seq![s.subrange(start, s.len() as int)]
        } else {
            seq![s.subrange(start, e)] + pieces_from(s, sep, e + 1)
        }
    }
}

/// The cookies of a `Cookie` header: the pieces between `';'`, each trimmed.
pub open spec fn cookies_of(header: Seq<char>) -> Seq<Seq<char>> {
    pieces_from(header, ';', 0).map_values(|p: Seq<char>| trimmed(p))
}

/// The strings' texts.
pub open spec fn texts(v: Seq<String>) -> Seq<Seq<char>> {
    v.map_values(|s: String| s@)
}

/// Splits a `Cookie` header into its cookies, each trimmed.
pub fn split_cookies(header: &str) -> (r: Vec<String>)
    ensures
        texts(r@) == cookies_of(header@),
{
    let ghost s = header@;
    let cs = chars_of(header);
    let n = cs.len();
    let mut r: Vec<String> = Vec::new();
    let mut start: usize = 0;
    let mut done = false;
    let ghost pv = pieces_from(s, ';', 0);
    assert(texts(r@) =~= Seq::<Seq<char>>::empty());
    while !done
        invariant
            cs@ == s,
            s == header@,
            n == s.len(),
            start <= n,
            pv == pieces_from(s, ';', 0),
            !done ==> pv.map_values(|p: Seq<char>| trimmed(p)) == texts(r@) + pieces_from(
                s,
                ';',
                start as int,
            ).map_values(|p: Seq<char>| trimmed(p)),
            done ==> texts(r@) == pv.map_values(|p: Seq<char>| trimmed(p)),
        decreases n - start + (if done { 0int } else { 1int }),
    {
        let mut e: usize = start;
        proof {
            lemma_next_sep(s, ';', start as int);
        }
        while e < n && cs[e] != ';'
            invariant
                cs@ == s,
                n == s.len(),
                start <= e <= n,
                next_sep(s, ';', start as int) == next_sep(s, ';', e as int),
            decreases n - e,
        {
            e = e + 1;
        }
        let piece = header.substring_char(start, e);
        let t = trim(piece);
        let ghost before = r@;
        r.push(to_owned_string(t));
        proof {
            assert(texts(r@) =~= texts(before).push(trimmed(s.subrange(start as int, e as int))));
            let rest = pieces_from(s, ';', start as int);
            if e < n {
                assert(rest == seq![s.subrange(start as int, e as int)] + pieces_from(s, ';', e + 1));
                assert(rest.map_values(|p: Seq<char>| trimmed(p)) =~= seq![trimmed(s.subrange(start as int, e as int))]
                    + pieces_from(s, ';', e + 1).map_values(|p: Seq<char>| trimmed(p)));
            } else {
                assert(rest == seq![s.subrange(start as int, n as int)]);
                assert(rest.map_values(|p: Seq<char>| trimmed(p)) =~= seq![trimmed(s.subrange(start as int, e as int))]);
            }
        }
        if e < n {
            start = e + 1;
        } else {
            done = true;
        }
    }
    r
}

/// The cookie that carries the session token.
pub const COOKIE_PREFIX: &'static str = "Authorization=Bearer ";

/// The header value that carries the session token.
pub const HEADER_PREFIX: &'static str = "Bearer ";

/// The token of the first cookie that starts with `COOKIE_PREFIX`, without
/// the prefix.
pub open spec fn token_in_cookies(cookies: Seq<Seq<char>>) -> Option<Seq<char>>
    decreases cookies.len(),
{
    if cookies.len() == 0 {
        None
    } else if cookies[0].len() >= COOKIE_PREFIX@.len() && cookies[0].take(COOKIE_PREFIX@.len() as int)
        == COOKIE_PREFIX@ {
        Some(cookies[0].skip(COOKIE_PREFIX@.len() as int))
    } else {
        token_in_cookies(cookies.drop_first())
    }
}

/// `s` starts with `p`.
pub open spec fn starts_with(s: Seq<char>, p: Seq<char>) -> bool {
    s.len() >= p.len() && s.take(p.len() as int) == p
}

/// Whether `s` starts with `p` (`str::starts_with`).
pub fn has_prefix(s: &str, p: &str) -> (r: bool)
    ensures
        r == starts_with(s@, p@),
{
    let a = chars_of(s);
    let b = chars_of(p);
    if b.len() > a.len() {
        return false;
    }
    let mut i: usize = 0;
    while i < b.len()
        invariant
            a@ == s@,
            b@ == p@,
            b@.len() <= a@.len(),
            i <= b@.len(),
            forall|k: int| 0 <= k < i ==> a@[k] == b@[k],
        decreases b@.len() - i,
    {
        if a[i] != b[i] {
            assert(s@.take(p@.len() as int)[i as int] != p@[i as int]);
            return false;
        }
        i = i + 1;
    }
    assert(s@.take(p@.len() as int) =~= p@);
    true
}

/// The text after the first `n` characters.
fn after(s: &str, n: usize) -> (r: String)
    requires
        n <= s@.len(),
    ensures
        r@ == s@.skip(n as int),
{
    let len = s.unicode_len();
    to_owned_string(s.substring_char(n, len))
}

/// Extract the session token from the request cookies.
pub fn extract_token_from_cookies(cookies: &Vec<String>) -> (r: Option<String>)
    ensures
        (match r {
            Some(t) => Some(t@),
            None => None,
        }) == token_in_cookies(texts(cookies@)),
{
    let ghost tv = texts(cookies@);
    let n = cookies.len();
    let plen = COOKIE_PREFIX.unicode_len();
    assert(tv.skip(0) =~= tv);
    for k in 0..n
        invariant
            n == cookies@.len(),
            tv == texts(cookies@),
            plen == COOKIE_PREFIX@.len(),
            token_in_cookies(tv) == token_in_cookies(tv.skip(k as int)),
    {
        proof {
            assert(tv.skip(k as int).drop_first() =~= tv.skip(k + 1));
            assert(tv.skip(k as int)[0] == cookies@[k as int]@);
        }
        if has_prefix(cookies[k].as_str(), COOKIE_PREFIX) {
            return Some(after(cookies[k].as_str(), plen));
        }
    }
    assert(tv.skip(n as int).len() == 0);
    None
}

/// `s` with every occurrence of `p` removed, scanning from the left
/// (`str::replace(p, "")` for a non-empty `p`).
pub open spec fn remove_all(s: Seq<char>, p: Seq<char>) -> Seq<char>
    decreases s.len(),
{
    if p.len() == 0 || s.len() == 0 {
        s
    } else if starts_with(s, p) {
        remove_all(s.skip(p.len() as int), p)
    } else {
        seq![s[0]] + remove_all(s.drop_first(), p)
    }
}

/// The token of an `Authorization` header value: when it starts with
/// `"Bearer "`, the value with every `"Bearer "` removed.
pub open spec fn token_in_header(v: Seq<char>) -> Option<Seq<char>> {
    if starts_with(v, HEADER_PREFIX@) {
        Some(remove_all(v, HEADER_PREFIX@))
    } else {
        None
    }
}

/// Extract the session token from the value of the `Authorization` header.
pub fn extract_token_from_header(value: &str) -> (r: Option<String>)
    ensures
        (match r {
            Some(t) => Some(t@),
            None => None,
        }) == token_in_header(value@),
{
    if !has_prefix(value, HEADER_PREFIX) {
        return None;
    }
    let s = chars_of(value);
    let p = chars_of(HEADER_PREFIX);
    let plen = p.len();
    proof {
        reveal_strlit("Bearer ");
    }
    let mut out: Vec<char> = Vec::new();
    let n = s.len();
    let mut i: usize = 0;
    assert(s@.skip(0) =~= s@);
    assert(out@ + remove_all(s@.skip(0), p@) =~= remove_all(s@, p@));
    while i < n
        invariant
            s@ == value@,
            p@ == HEADER_PREFIX@,
            plen == p@.len(),
            plen > 0,
            n == s@.len(),
            i <= n,
            out@ + remove_all(s@.skip(i as int), p@) == remove_all(s@, p@),
        decreases n - i,
    {
        let ghost rest = s@.skip(i as int);
        let mut matched = plen <= n - i;
        let mut j: usize = 0;
        while matched && j < plen
            invariant
                s@ == value@,
                plen == p@.len(),
                n == s@.len(),
                i < n,
                matched ==> i + plen <= n,
                j <= plen,
                matched ==> forall|k: int| 0 <= k < j ==> s@[i + k] == p@[k],
                !matched ==> !starts_with(s@.skip(i as int), p@),
            decreases plen - j + (if matched { 1int } else { 0int }),
        {
            if s[i + j] != p[j] {
                matched = false;
                assert(s@.skip(i as int).take(plen as int)[j as int] != p@[j as int]);
            } else {
                j = j + 1;
            }
        }
        if matched {
            assert(rest.take(plen as int) =~= p@);
            assert(rest.skip(plen as int) =~= s@.skip(i + plen));
            i = i + plen;
        } else {
            let ghost before = out@;
            out.push(s[i]);
            assert(rest.drop_first() =~= s@.skip(i + 1));
            assert(out@ + remove_all(s@.skip(i + 1), p@) =~= before + (seq![rest[0]] + remove_all(
                rest.drop_first(),
                p@,
            )));
            i = i + 1;
        }
    }
    assert(remove_all(s@.skip(n as int), p@) =~= Seq::<char>::empty());
    assert(out@ =~= remove_all(s@, p@));
    Some(string_of(&out))
}

/// The session token a request carries (empty when none).
#[derive(Debug)]
pub struct AuthToken(pub String);

/// The token of a request with the given `Cookie` and `Authorization`
/// headers: from the cookies when they carry one, else from the header.
pub open spec fn request_token(cookie: Option<Seq<char>>, auth: Option<Seq<char>>) -> Seq<char> {
    let from_cookies = match cookie {
        Some(c) => token_in_cookies(cookies_of(c)),
        None => None,
    };
    match from_cookies {
        Some(t) => t,
        None => match auth {
            Some(a) => match token_in_header(a) {
                Some(t) => t,
                None => Seq::empty(),
            },
            None => Seq::empty(),
        },
    }
}

impl AuthToken {
    /// The token of a request, given its `Cookie` and `Authorization` header values.
    pub fn from_headers(cookie: Option<&str>, authorization: Option<&str>) -> (r: AuthToken)
        ensures
            r.0@ == request_token(
                match cookie {
                    Some(c) => Some(c@),
                    None => None,
                },
                match authorization {
                    Some(a) => Some(a@),
                    None => None,
                },
            ),
    {
        let from_cookies = match cookie {
            Some(c) => {
                let cookies = split_cookies(c);
                if cookies.len() == 0 {
                    None
                } else {
                    extract_token_from_cookies(&cookies)
                }
            },
            None => None,
        };
        proof {
            if let Some(c) = cookie {
                if cookies_of(c@).len() == 0 {
                    assert(token_in_cookies(cookies_of(c@)) is None);
                }
            }
        }
        let token = match from_cookies {
            Some(t) => Some(t),
            None => match authorization {
                Some(a) => extract_token_from_header(a),
                None => None,
            },
        };
        match token {
            Some(t) => AuthToken(t),
            None => AuthToken(String::new()),
        }
    }
}

proof fn lemma_next_sep_absent(s: Seq<char>, sep: char, i: int)
    requires
        0 <= i <= s.len(),
        forall|k: int| i <= k < s.len() ==> s[k] != sep,
    ensures
        next_sep(s, sep, i) == s.len(),
    decreases s.len() - i,
{
    if i < s.len() {
        lemma_next_sep_absent(s, sep, i + 1);
    }
}

/// The cookie the server sets carries the token back: a `Cookie` header
/// `Authorization=Bearer <token>` (the token without `';'`, the cookie without
/// surrounding whitespace) gives the request the same token, whatever the
/// `Authorization` header says.
pub proof fn law_session_cookie_reads_back(t: Seq<char>, auth: Option<Seq<char>>)
    requires
        forall|i: int| 0 <= i < t.len() ==> t[i] != ';',
        trimmed(COOKIE_PREFIX@ + t) == COOKIE_PREFIX@ + t,
    ensures
        request_token(Some(COOKIE_PREFIX@ + t), auth) == t,
{
    reveal_strlit("Authorization=Bearer ");
    let c = COOKIE_PREFIX@ + t;
    let plen = COOKIE_PREFIX@.len() as int;
    assert forall|k: int| 0 <= k < c.len() implies c[k] != ';' by {
        if k >= plen {
            assert(c[k] == t[k - plen]);
        }
    }
    lemma_next_sep_absent(c, ';', 0);
    assert(c.subrange(0, c.len() as int) =~= c);
    assert(pieces_from(c, ';', 0) == seq![c]);
    assert(cookies_of(c) =~= seq![c]);
    assert(c.take(plen) =~= COOKIE_PREFIX@);
    assert(c.skip(plen) =~= t);
}

/// Text in which `p` does not occur is left as it is by `remove_all`.
proof fn lemma_remove_all_absent(t: Seq<char>, p: Seq<char>)
    requires
        p.len() > 0,
        forall|i: int| 0 <= i <= t.len() ==> !starts_with(#[trigger] t.skip(i), p),
    ensures
        remove_all(t, p) == t,
    decreases t.len(),
{
    if t.len() > 0 {
        assert(t.skip(0) =~= t);
        assert forall|i: int| 0 <= i <= t.drop_first().len() implies !starts_with(
            #[trigger] t.drop_first().skip(i),
            p,
        ) by {
            assert(t.drop_first().skip(i) =~= t.skip(i + 1));
        }
        lemma_remove_all_absent(t.drop_first(), p);
        assert(seq![t[0]] + t.drop_first() =~= t);
    }
}

/// The header a client sends carries the token back: `Bearer <token>` (the
/// token without `"Bearer "` in it) gives the request the same token when no
/// cookie carries one.
pub proof fn law_bearer_header_reads_back(t: Seq<char>)
    requires
        forall|i: int| 0 <= i <= t.len() ==> !starts_with(#[trigger] t.skip(i), HEADER_PREFIX@),
    ensures
        token_in_header(HEADER_PREFIX@ + t) == Some(t),
        request_token(None, Some(HEADER_PREFIX@ + t)) == t,
{
    reveal_strlit("Bearer ");
    let p = HEADER_PREFIX@;
    let h = p + t;
    assert(h.take(p.len() as int) =~= p);
    assert(h.skip(p.len() as int) =~= t);
    lemma_remove_all_absent(t, p);
    assert(remove_all(h, p) == remove_all(t, p));
}


/// The first cookie that begins with `Authorization=Bearer ` gives the token,
/// wherever it stands in the list: the token is the rest of that cookie.
pub proof fn law_first_authorization_cookie_gives_token(cookies: Seq<Seq<char>>, k: int)
    requires
        0 <= k < cookies.len(),
        forall|j: int|
            0 <= j < k ==> !(#[trigger] cookies[j].len() >= 21 && cookies[j].take(21) == "Authorization=Bearer "@),
        cookies[k].len() >= 21 && cookies[k].take(21) == "Authorization=Bearer "@,
    ensures
        token_in_cookies(cookies) == Some(cookies[k].skip(21)),
    decreases k,
{
    reveal_strlit("Authorization=Bearer ");
    assert(COOKIE_PREFIX@.len() == 21);
    if k > 0 {
        let rest = cookies.drop_first();
        assert forall|j: int| 0 <= j < k - 1 implies !(#[trigger] rest[j].len() >= 21 && rest[j].take(21)
            == "Authorization=Bearer "@) by {
            assert(rest[j] == cookies[j + 1]);
        }
        assert(rest[k - 1] == cookies[k]);
        assert(!(cookies[0].len() >= 21 && cookies[0].take(21) == "Authorization=Bearer "@));
        law_first_authorization_cookie_gives_token(rest, k - 1);
    }
}

/// Without a cookie that begins with `Authorization=Bearer ` there is no token.
pub proof fn law_no_authorization_cookie_no_token(cookies: Seq<Seq<char>>)
    requires
        forall|j: int|
            0 <= j < cookies.len() ==> !(#[trigger] cookies[j].len() >= 21 && cookies[j].take(21)
                == "Authorization=Bearer "@),
    ensures
        token_in_cookies(cookies) is None,
    decreases cookies.len(),
{
    reveal_strlit("Authorization=Bearer ");
    assert(COOKIE_PREFIX@.len() == 21);
    if cookies.len() > 0 {
        let rest = cookies.drop_first();
        assert forall|j: int| 0 <= j < rest.len() implies !(#[trigger] rest[j].len() >= 21 && rest[j].take(21)
            == "Authorization=Bearer "@) by {
            assert(rest[j] == cookies[j + 1]);
        }
        assert(!(cookies[0].len() >= 21 && cookies[0].take(21) == "Authorization=Bearer "@));
        law_no_authorization_cookie_no_token(rest);
    }
}

} // verus!
