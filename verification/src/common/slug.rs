//! Slug utility functions for generating URL-safe identifiers from names.
//!
//! Provides consistent slug generation logic used across different entities
//! like boards, packages, and shapes.
use vstd::prelude::*;
use crate::workshop::generic_service::ITEM_SLUG_PATTERN;
use crate::strings::{
    all_ascii, ascii_lower, chars_of, is_ascii_alpha, is_ascii_char, is_ascii_digit, is_alphabetic, is_alphanumeric, string_of, to_lowercase, to_owned_string,
    unicode_alphabetic, unicode_alphanumeric, unicode_lowercase,
};

verus! {

/// Pattern of a valid slug: starts with a lowercase letter, continues with
/// lowercase letters, digits or hyphens, and does not end with a hyphen.
pub const SLUG_PATTERN: &'static str = "^[a-z][a-z0-9-]*[a-z0-9]$|^[a-z]$";

/// Whether `regex::Regex::new(pattern)` compiles (`Some`) and, if it does,
/// whether the compiled expression matches somewhere in `haystack`.
pub uninterp spec fn regex_match_result(pattern: Seq<char>, haystack: Seq<char>) -> Option<bool>;

/// A lowercase ASCII letter.
pub open spec fn is_ascii_lower(c: char) -> bool {
    'a' <= c && c <= 'z'
}

/// A character of the class `[a-z0-9-]`.
pub open spec fn is_slug_char(c: char) -> bool {
    is_ascii_lower(c) || is_ascii_digit(c) || c == '-'
}

/// What `^[a-z][a-z0-9-]*$` matches: a lowercase letter, then lowercase
/// letters, digits and hyphens.
pub open spec fn item_slug_text(s: Seq<char>) -> bool {
    &&& s.len() > 0
    &&& is_ascii_lower(s[0])
    &&& forall|i: int| 0 < i < s.len() ==> is_slug_char(#[trigger] s[i])
}

/// What the slug pattern matches: as `item_slug_text`, and not ending with a
/// hyphen (the two alternatives of the pattern).
pub open spec fn slug_text(s: Seq<char>) -> bool {
    item_slug_text(s) && s.last() != '-'
}

/// `regex::Regex::new` followed by `Regex::is_match`.
/// The contract names the outcome as a function of the pattern and the
/// haystack alone: `None` when the pattern does not compile, otherwise
/// whether the expression matches. For the two patterns of this library it
/// states the outcome: both compile, and as `^` and `$` (without the
/// multi-line flag) anchor at the ends of the haystack and `[a-z]`, `[0-9]`
/// are ranges of characters, they match exactly `slug_text` and
/// `item_slug_text`. What other expressions match is not restated.
#[verifier::external_body]
pub(crate) fn regex_is_match(pattern: &str, haystack: &str) -> (r: Option<bool>)
    ensures
        r == regex_match_result(pattern@, haystack@),
        pattern@ == SLUG_PATTERN@ ==> r == Some(slug_text(haystack@)),
        pattern@ == ITEM_SLUG_PATTERN@ ==> r == Some(item_slug_text(haystack@)),
{
    match regex::Regex::new(pattern) {
        Ok(re) => Some(re.is_match(haystack)),
        Err(_) => None,
    }
}

/// A character kept in a slug as it is; every other character becomes a hyphen.
pub open spec fn slug_char(c: char) -> char {
    if unicode_alphanumeric(c) {
        c
    } else {
        '-'
    }
}

/// Joins the hyphen-free runs of `s` with single hyphens, appending to `acc`;
/// `pending` records a hyphen seen after the last kept character.
pub open spec fn join_runs(s: Seq<char>, acc: Seq<char>, pending: bool) -> Seq<char>
    decreases s.len(),
{
    if s.len() == 0 {
        acc
    } else if s[0] == '-' {
        join_runs(s.drop_first(), acc, acc.len() > 0)
    } else {
        join_runs(
            s.drop_first(),
            (if pending {
                acc.push('-')
            } else {
                acc
            }).push(s[0]),
            false,
        )
    }
}

/// The hyphen-free runs of `s`, joined by single hyphens: leading, trailing
/// and repeated hyphens are gone.
pub open spec fn slug_body(s: Seq<char>) -> Seq<char> {
    join_runs(s, seq![], false)
}

/// The slug of a name: lowercase it, replace non-alphanumeric characters with
/// hyphens, drop leading, trailing and repeated hyphens, and prefix `item-`
/// unless the result starts with a letter.
pub open spec fn spec_generate_slug(name: Seq<char>) -> Seq<char> {
    let body = slug_body(unicode_lowercase(name).map_values(|c: char| slug_char(c)));
    if body.len() == 0 || !unicode_alphabetic(body[0]) {
        seq!['i', 't', 'e', 'm', '-'] + body
    } else {
        body
    }
}

/// The slug character of a character: ASCII letters and digits stay, every
/// other character becomes a hyphen.
pub open spec fn ascii_slug_char(c: char) -> char {
    if is_ascii_alpha(c) || is_ascii_digit(c) {
        c
    } else {
        '-'
    }
}

/// An ASCII name lowercased, with every character but letters and digits
/// replaced by a hyphen.
pub open spec fn ascii_slug_mapped(name: Seq<char>) -> Seq<char> {
    name.map_values(|c: char| ascii_slug_char(ascii_lower(c)))
}

/// The slug of an ASCII name, by the rules of `spec_generate_slug` with the
/// ASCII case mapping and character classes.
pub open spec fn ascii_generate_slug(name: Seq<char>) -> Seq<char> {
    let body = slug_body(ascii_slug_mapped(name));
    if body.len() == 0 || !is_ascii_alpha(body[0]) {
        seq!['i', 't', 'e', 'm', '-'] + body
    } else {
        body
    }
}

/// Generate a slug from a given name.
///
/// Rules:
/// - Convert to lowercase
/// - Replace non-alphanumeric characters with hyphens
/// - Remove leading/trailing hyphens
/// - Ensure it starts with a letter (prepend 'item-' if it starts with a number)
/// - Remove consecutive hyphens
pub fn generate_slug(name: &str) -> (r: String)
    ensures
        r@ == spec_generate_slug(name@),
        all_ascii(name@) ==> r@ == ascii_generate_slug(name@),
{
    let lower = to_lowercase(name);
    let cs = chars_of(lower.as_str());
    let n = cs.len();
    let mut mapped: Vec<char> = Vec::new();
    for i in 0..n
        invariant
            n == cs@.len(),
            mapped@ == cs@.take(i as int).map_values(|c: char| slug_char(c)),
            all_ascii(name@) ==> cs@ == name@.map_values(|c: char| ascii_lower(c)),
            all_ascii(name@) ==> mapped@ == cs@.take(i as int).map_values(|c: char| ascii_slug_char(c)),
    {
        let c = cs[i];
        let m = if is_alphanumeric(c) {
            c
        } else {
            '-'
        };
        proof {
            if all_ascii(name@) {
                assert(c == ascii_lower(name@[i as int]));
                assert(is_ascii_char(name@[i as int]));
                lemma_ascii_lower_ascii(name@[i as int]);
                assert(m == ascii_slug_char(c));
                assert(cs@.take(i + 1).map_values(|c: char| ascii_slug_char(c)) =~= cs@.take(
                    i as int,
                ).map_values(|c: char| ascii_slug_char(c)).push(m));
            }
        }
        mapped.push(m);
        assert(cs@.take(i + 1).map_values(|c: char| slug_char(c)) =~= cs@.take(i as int).map_values(
            |c: char| slug_char(c),
        ).push(m));
    }
    assert(cs@.take(n as int) =~= cs@);
    let body = slug_body_of(&mapped);
    proof {
        if all_ascii(name@) {
            assert(mapped@ =~= ascii_slug_mapped(name@));
            lemma_mapped_slug_chars(name@);
            lemma_join_runs_slug_chars(mapped@, seq![], false);
        }
    }
    let letter = body.len() > 0 && is_alphabetic(body[0]);
    with_item_prefix(body, letter)
}

/// Joins the hyphen-free runs of the characters with single hyphens.
pub fn slug_body_of(mapped: &Vec<char>) -> (r: Vec<char>)
    ensures
        r@ == slug_body(mapped@),
{
    let n = mapped.len();
    let mut body: Vec<char> = Vec::new();
    let mut pending = false;
    assert(mapped@.skip(0) =~= mapped@);
    for i in 0..n
        invariant
            n == mapped@.len(),
            join_runs(mapped@.skip(i as int), body@, pending) == slug_body(mapped@),
    {
        let m = mapped[i];
        let ghost rest = mapped@.skip(i as int);
        assert(rest[0] == m);
        assert(rest.drop_first() =~= mapped@.skip(i + 1));
        if m == '-' {
            pending = body.len() > 0;
        } else {
            if pending {
                body.push('-');
            }
            body.push(m);
            pending = false;
        }
    }
    assert(mapped@.skip(n as int) =~= seq![]);
    body
}

/// A slug body as a slug: kept when it starts with a letter, else after `item-`.
pub fn with_item_prefix(body: Vec<char>, starts_with_letter: bool) -> (r: String)
    ensures
        r@ == (if body@.len() == 0 || !starts_with_letter {
            seq!['i', 't', 'e', 'm', '-'] + body@
        } else {
            body@
        }),
{
    let mut body = body;
    if body.len() == 0 || !starts_with_letter {
        let mut out: Vec<char> = Vec::new();
        out.push('i');
        out.push('t');
        out.push('e');
        out.push('m');
        out.push('-');
        out.append(&mut body);
        string_of(&out)
    } else {
        string_of(&body)
    }
}

/// The slug of a new item: the one the client chose, or one generated from the name.
pub fn slug_for(custom: Option<&str>, name: &str) -> (r: String)
    ensures
        r@ == (match custom {
            Some(c) => c@,
            None => spec_generate_slug(name@),
        }),
{
    match custom {
        Some(c) => to_owned_string(c),
        None => generate_slug(name),
    }
}

/// Validate if a string matches the slug format requirements.
pub fn is_valid_slug(slug: &str) -> (r: bool)
    ensures
        r == slug_text(slug@),
{
    if slug.is_empty() {
        false
    } else {
        slug_verdict(slug, regex_is_match(SLUG_PATTERN, slug))
    }
}

/// The verdict on a slug given the outcome of matching it against the slug
/// pattern: valid when it is not empty and the pattern compiled and matched.
pub fn slug_verdict(slug: &str, matched: Option<bool>) -> (r: bool)
    ensures
        r == (slug@.len() > 0 && matched == Some(true)),
{
    if slug.is_empty() {
        false
    } else {
        match matched {
            Some(b) => b,
            None => false,
        }
    }
}

/// No two hyphens stand next to each other.
pub open spec fn no_double_hyphen(t: Seq<char>) -> bool {
    forall|i: int| 0 <= i < t.len() - 1 ==> !(#[trigger] t[i] == '-' && t[i + 1] == '-')
}

/// Neither starts nor ends with a hyphen, and has no repeated hyphen.
pub open spec fn hyphen_clean(t: Seq<char>) -> bool {
    &&& t.len() > 0 ==> t[0] != '-' && t.last() != '-'
    &&& no_double_hyphen(t)
}

/// The predicate "is not a hyphen", as a value.
pub open spec fn not_hyphen() -> spec_fn(char) -> bool {
    |c: char| c != '-'
}

proof fn lemma_join_runs(s: Seq<char>, acc: Seq<char>, pending: bool)
    requires
        hyphen_clean(acc),
        pending ==> acc.len() > 0,
    ensures
        hyphen_clean(join_runs(s, acc, pending)),
        join_runs(s, acc, pending).filter(not_hyphen()) == acc.filter(not_hyphen()) + s.filter(
            not_hyphen(),
        ),
        acc.len() > 0 ==> join_runs(s, acc, pending).len() > 0 && join_runs(s, acc, pending)[0]
            == acc[0],
    decreases s.len(),
{
    broadcast use Seq::filter_distributes_over_add;

    if s.len() == 0 {
        assert(s.filter(not_hyphen()) =~= seq![]) by {
            reveal_with_fuel(Seq::<_>::filter, 1);
        }
        assert(acc.filter(not_hyphen()) + s.filter(not_hyphen()) =~= acc.filter(not_hyphen()));
    } else {
        let head = seq![s[0]];
        assert(s =~= head + s.drop_first());
        assert(s.filter(not_hyphen()) == head.filter(not_hyphen()) + s.drop_first().filter(
            not_hyphen(),
        ));
        reveal_with_fuel(Seq::<_>::filter, 2);
        assert(head.drop_last() =~= Seq::<char>::empty());
        if s[0] == '-' {
            assert(head.filter(not_hyphen()) =~= seq![]);
            lemma_join_runs(s.drop_first(), acc, acc.len() > 0);
            assert(acc.filter(not_hyphen()) + s.filter(not_hyphen()) =~= acc.filter(not_hyphen())
                + s.drop_first().filter(not_hyphen()));
        } else {
            assert(head.filter(not_hyphen()) =~= head);
            let acc1 = if pending {
                acc.push('-')
            } else {
                acc
            };
            let acc2 = acc1.push(s[0]);
            assert(acc1.filter(not_hyphen()) == acc.filter(not_hyphen())) by {
                if pending {
                    assert(acc.push('-').drop_last() =~= acc);
                }
            }
            assert(acc2.drop_last() =~= acc1);
            assert(acc2.filter(not_hyphen()) == acc1.filter(not_hyphen()).push(s[0]));
            assert(hyphen_clean(acc2)) by {
                assert forall|i: int| 0 <= i < acc2.len() - 1 implies !(#[trigger] acc2[i] == '-'
                    && acc2[i + 1] == '-') by {
                    if i < acc.len() - 1 {
                        assert(acc2[i] == acc[i] && acc2[i + 1] == acc[i + 1]);
                    }
                }
            }
            lemma_join_runs(s.drop_first(), acc2, false);
            assert(acc2.filter(not_hyphen()) =~= acc.filter(not_hyphen()) + head);
            assert(acc.filter(not_hyphen()) + s.filter(not_hyphen()) =~= acc.filter(not_hyphen())
                + head + s.drop_first().filter(not_hyphen()));
        }
    }
}

/// A slug keeps every character of the hyphen-mapped lowercase name except the
/// hyphens, in order; it never starts with a hyphen, never holds two hyphens in
/// a row, and ends with a hyphen only when it is `item-` (a name with no
/// alphanumeric character).
pub proof fn law_generate_slug_shape(name: Seq<char>)
    ensures
        ({
            let mapped = unicode_lowercase(name).map_values(|c: char| slug_char(c));
            let body = slug_body(mapped);
            let r = spec_generate_slug(name);
            &&& hyphen_clean(body)
            &&& body.filter(not_hyphen()) == mapped.filter(not_hyphen())
            &&& r.len() > 0
            &&& r[0] != '-'
            &&& no_double_hyphen(r)
            &&& r.last() == '-' ==> r =~= seq!['i', 't', 'e', 'm', '-']
        }),
{
    let mapped = unicode_lowercase(name).map_values(|c: char| slug_char(c));
    let e = Seq::<char>::empty();
    assert(e.filter(not_hyphen()) =~= e) by {
        reveal_with_fuel(Seq::<_>::filter, 1);
    }
    lemma_join_runs(mapped, e, false);
    assert(e.filter(not_hyphen()) + mapped.filter(not_hyphen()) =~= mapped.filter(not_hyphen()));
    let body = slug_body(mapped);
    let r = spec_generate_slug(name);
    if body.len() == 0 || !unicode_alphabetic(body[0]) {
        let p = seq!['i', 't', 'e', 'm', '-'];
        assert(r == p + body);
        assert forall|i: int| 0 <= i < r.len() - 1 implies !(#[trigger] r[i] == '-' && r[i + 1]
            == '-') by {
            if i >= 5 {
                assert(r[i] == body[i - 5] && r[i + 1] == body[i - 4]);
            } else if i == 4 {
                assert(r[i + 1] == body[0]);
            }
        }
        if r.last() == '-' {
            if body.len() > 0 {
                assert(r.last() == body.last());
            }
            assert(r =~= p);
        }
    }
}


/// Lowercasing an ASCII character keeps it ASCII.
proof fn lemma_ascii_lower_ascii(c: char)
    requires
        is_ascii_char(c),
    ensures
        is_ascii_char(ascii_lower(c)),
{
}

/// Every character of the hyphen-mapped lowercase name is a slug character,
/// and letters and digits are kept as non-hyphens.
proof fn lemma_ascii_slug_char(c: char)
    ensures
        is_slug_char(ascii_slug_char(ascii_lower(c))),
        (is_ascii_alpha(c) || is_ascii_digit(c)) ==> ascii_slug_char(ascii_lower(c)) != '-',
        is_slug_char(c) ==> ascii_slug_char(ascii_lower(c)) == c,
{
}

/// A slug character is ASCII.
proof fn lemma_slug_char_ascii(c: char)
    requires
        is_slug_char(c),
    ensures
        is_ascii_char(c),
{
}

proof fn lemma_mapped_slug_chars(name: Seq<char>)
    ensures
        forall|i: int| 0 <= i < ascii_slug_mapped(name).len() ==> is_slug_char(#[trigger] ascii_slug_mapped(name)[i]),
{
    assert forall|i: int| 0 <= i < ascii_slug_mapped(name).len() implies is_slug_char(#[trigger] ascii_slug_mapped(name)[i]) by {
        lemma_ascii_slug_char(name[i]);
    }
}

/// Joining runs of slug characters gives slug characters only.
proof fn lemma_join_runs_slug_chars(s: Seq<char>, acc: Seq<char>, pending: bool)
    requires
        forall|i: int| 0 <= i < s.len() ==> is_slug_char(#[trigger] s[i]),
        forall|i: int| 0 <= i < acc.len() ==> is_slug_char(#[trigger] acc[i]),
    ensures
        forall|i: int| 0 <= i < join_runs(s, acc, pending).len() ==> is_slug_char(#[trigger] join_runs(s, acc, pending)[i]),
        forall|i: int| 0 <= i < join_runs(s, acc, pending).len() ==> is_ascii_char(#[trigger] join_runs(s, acc, pending)[i]),
    decreases s.len(),
{
    let r = join_runs(s, acc, pending);
    if s.len() == 0 {
        assert(r == acc);
    } else {
        let rest = s.drop_first();
        assert forall|i: int| 0 <= i < rest.len() implies is_slug_char(#[trigger] rest[i]) by {
            assert(rest[i] == s[i + 1]);
        }
        if s[0] == '-' {
            lemma_join_runs_slug_chars(rest, acc, acc.len() > 0);
            assert(r == join_runs(rest, acc, acc.len() > 0));
        } else {
            let acc1 = if pending { acc.push('-') } else { acc };
            let acc2 = acc1.push(s[0]);
            assert(is_slug_char(s[0]));
            assert forall|i: int| 0 <= i < acc2.len() implies is_slug_char(#[trigger] acc2[i]) by {
                if i < acc.len() {
                    assert(acc2[i] == acc[i]);
                }
            }
            lemma_join_runs_slug_chars(rest, acc2, false);
            assert(r == join_runs(rest, acc2, false));
        }
    }
    assert forall|i: int| 0 <= i < r.len() implies is_ascii_char(#[trigger] r[i]) by {
        lemma_slug_char_ascii(r[i]);
    }
}

/// Joining the runs of a sequence that has no repeated and no final hyphen
/// changes nothing but the hyphen that may wait between `acc` and it.
proof fn lemma_join_runs_clean(s: Seq<char>, acc: Seq<char>, pending: bool)
    requires
        no_double_hyphen(s),
        s.len() > 0 ==> s.last() != '-',
        pending ==> acc.len() > 0 && s.len() > 0 && s[0] != '-',
        !pending && s.len() > 0 && s[0] == '-' ==> acc.len() > 0,
    ensures
        join_runs(s, acc, pending) == acc + (if pending {
            seq!['-']
        } else {
            Seq::<char>::empty()
        }) + s,
    decreases s.len(),
{
    let rest = s.drop_first();
    if s.len() == 0 {
        assert(acc + Seq::<char>::empty() + s =~= acc);
    } else if s[0] == '-' {
        assert(rest.len() > 0 && rest[0] != '-') by {
            assert(!(s[0] == '-' && s[1] == '-'));
        }
        assert(no_double_hyphen(rest)) by {
            assert forall|i: int| 0 <= i < rest.len() - 1 implies !(#[trigger] rest[i] == '-' && rest[i + 1] == '-') by {
                assert(rest[i] == s[i + 1] && rest[i + 1] == s[i + 2]);
                assert(!(s[i + 1] == '-' && s[i + 2] == '-'));
            }
        }
        lemma_join_runs_clean(rest, acc, true);
        assert(acc + seq!['-'] + rest =~= acc + Seq::<char>::empty() + s);
    } else {
        let acc1 = if pending { acc.push('-') } else { acc };
        let acc2 = acc1.push(s[0]);
        assert(no_double_hyphen(rest)) by {
            assert forall|i: int| 0 <= i < rest.len() - 1 implies !(#[trigger] rest[i] == '-' && rest[i + 1] == '-') by {
                assert(rest[i] == s[i + 1] && rest[i + 1] == s[i + 2]);
                assert(!(s[i + 1] == '-' && s[i + 2] == '-'));
            }
        }
        if rest.len() > 0 {
            assert(rest.last() == s.last());
        }
        lemma_join_runs_clean(rest, acc2, false);
        assert(acc2 + Seq::<char>::empty() + rest =~= acc + (if pending {
            seq!['-']
        } else {
            Seq::<char>::empty()
        }) + s);
    }
}

/// A generated slug is valid: for a name with an ASCII letter or digit, the
/// slug by the ASCII rules matches the slug pattern (and so is ASCII, starts
/// with a letter, has no leading, trailing or repeated hyphen).
pub proof fn law_generated_slug_is_valid(name: Seq<char>)
    requires
        exists|i: int| 0 <= i < name.len() && (is_ascii_alpha(#[trigger] name[i]) || is_ascii_digit(name[i])),
    ensures
        slug_text(ascii_generate_slug(name)),
        no_double_hyphen(ascii_generate_slug(name)),
        all_ascii(ascii_generate_slug(name)),
{
    let m = ascii_slug_mapped(name);
    let e = Seq::<char>::empty();
    let body = slug_body(m);
    let r = ascii_generate_slug(name);
    assert(e.filter(not_hyphen()) =~= e) by {
        reveal_with_fuel(Seq::<_>::filter, 1);
    }
    lemma_join_runs(m, e, false);
    assert(e.filter(not_hyphen()) + m.filter(not_hyphen()) =~= m.filter(not_hyphen()));
    lemma_mapped_slug_chars(name);
    lemma_join_runs_slug_chars(m, e, false);
    let i = choose|i: int| 0 <= i < name.len() && (is_ascii_alpha(#[trigger] name[i]) || is_ascii_digit(name[i]));
    lemma_ascii_slug_char(name[i]);
    assert(m[i] != '-');
    m.lemma_filter_contains(not_hyphen(), i);
    assert(body.filter(not_hyphen()).len() > 0);
    assert(body.len() > 0) by {
        if body.len() == 0 {
            assert(body.filter(not_hyphen()) =~= e) by {
                reveal_with_fuel(Seq::<_>::filter, 1);
            }
        }
    }
    if !is_ascii_alpha(body[0]) {
        let p = seq!['i', 't', 'e', 'm', '-'];
        assert(r == p + body);
        assert forall|k: int| 0 < k < r.len() implies is_slug_char(#[trigger] r[k]) by {
            if k >= 5 {
                assert(r[k] == body[k - 5]);
            }
        }
        assert(r.last() == body.last());
        assert forall|k: int| 0 <= k < r.len() - 1 implies !(#[trigger] r[k] == '-' && r[k + 1] == '-') by {
            if k >= 5 {
                assert(r[k] == body[k - 5] && r[k + 1] == body[k - 4]);
            } else if k == 4 {
                assert(r[k + 1] == body[0]);
            }
        }
    }
    assert forall|k: int| 0 <= k < r.len() implies is_ascii_char(#[trigger] r[k]) by {
        assert(is_slug_char(r[k]) || k == 0);
        if k == 0 {
            assert(is_slug_char(body[0]));
        }
        lemma_slug_char_ascii(r[k]);
    }
}

/// Generating a slug from a generated slug gives it back, for a name with an
/// ASCII letter or digit (a name with none gives `item-`, whose slug is `item`).
pub proof fn law_generate_slug_idempotent(name: Seq<char>)
    requires
        exists|i: int| 0 <= i < name.len() && (is_ascii_alpha(#[trigger] name[i]) || is_ascii_digit(name[i])),
    ensures
        ascii_generate_slug(ascii_generate_slug(name)) == ascii_generate_slug(name),
{
    let t = ascii_generate_slug(name);
    law_generated_slug_is_valid(name);
    assert forall|k: int| 0 <= k < t.len() implies is_slug_char(#[trigger] t[k]) by {
        if k == 0 {
        }
    }
    assert(ascii_slug_mapped(t) =~= t) by {
        assert forall|k: int| 0 <= k < t.len() implies #[trigger] ascii_slug_mapped(t)[k] == t[k] by {
            lemma_ascii_slug_char(t[k]);
        }
    }
    lemma_join_runs_clean(t, Seq::<char>::empty(), false);
    assert(Seq::<char>::empty() + Seq::<char>::empty() + t =~= t);
    assert(slug_body(t) == t);
}

} // verus!
