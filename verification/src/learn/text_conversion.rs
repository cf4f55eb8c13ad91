//! Pig-latin conversion.
//!
//! The text is cut after every non-alphanumeric character (the cut keeps the
//! character in the part before it). In each part the characters before the
//! first letter form a prefix, the rest is the word. A word opening with a
//! consonant moves its consonant cluster (one or two letters) behind a hyphen
//! and adds `ay` (`first` -> `irst-fay`); a word opening with a vowel or `h`
//! gets `-ay` (`apple` -> `apple-ay`). The letters that remain stay in front,
//! every other character is moved to the end.
use vstd::prelude::*;
use crate::strings::{
    ascii_alpha_pred, chars_of, is_alphabetic, is_alphanumeric, is_ascii_alpha, is_ascii_alphabetic,
    non_ascii_alpha_pred, push_char, string_of, unicode_alphabetic, unicode_alphanumeric,
};

verus! {

/// Kind of the first letter of a word.
pub enum CharType {
    Vowel,
    Consonant(String),
    Empty,
}

/// The vowels `aeiouAEIOU`.
pub open spec fn spec_is_vowel(c: char) -> bool {
    c == 'a' || c == 'e' || c == 'i' || c == 'o' || c == 'u' || c == 'A' || c == 'E' || c == 'I'
        || c == 'O' || c == 'U'
}

/// The consonants treated like vowels: `hH`.
pub open spec fn spec_is_omit_cons(c: char) -> bool {
    c == 'h' || c == 'H'
}

/// Returns if character is a vowel.
pub fn is_vowel(c: char) -> (r: bool)
    ensures
        r == spec_is_vowel(c),
{
    c == 'a' || c == 'e' || c == 'i' || c == 'o' || c == 'u' || c == 'A' || c == 'E' || c == 'I'
        || c == 'O' || c == 'U'
}

/// Returns if character is an omitted consonant.
pub fn is_omit_cons(c: char) -> (r: bool)
    ensures
        r == spec_is_omit_cons(c),
{
    c == 'h' || c == 'H'
}

/// The word opens with an ASCII vowel or `h`.
pub open spec fn opens_with_vowel(w: Seq<char>) -> bool {
    w.len() > 0 && is_ascii_alpha(w[0]) && (spec_is_vowel(w[0]) || spec_is_omit_cons(w[0]))
}

/// The word opens with an ASCII consonant other than `h`.
pub open spec fn opens_with_consonant(w: Seq<char>) -> bool {
    w.len() > 0 && is_ascii_alpha(w[0]) && !spec_is_vowel(w[0]) && !spec_is_omit_cons(w[0])
}

/// The opening consonant, with the next character when that is an ASCII non-vowel letter.
pub open spec fn consonant_cluster(w: Seq<char>) -> Seq<char> {
    if w.len() > 1 && is_ascii_alpha(w[1]) && !spec_is_vowel(w[1]) {
        w.take(2)
    } else {
        w.take(1)
    }
}

/// Classifies the first letter of a word given as characters.
pub fn classify_word(word: &Vec<char>) -> (r: CharType)
    ensures
        r is Vowel <==> opens_with_vowel(word@),
        r is Empty <==> (!opens_with_vowel(word@) && !opens_with_consonant(word@)),
        r matches CharType::Consonant(cons) ==> opens_with_consonant(word@) && cons@
            == consonant_cluster(word@),
{
    if word.len() == 0 {
        return CharType::Empty;
    }
    let c = word[0];
    if !is_ascii_alphabetic(c) {
        return CharType::Empty;
    }
    if is_vowel(c) || is_omit_cons(c) {
        return CharType::Vowel;
    }
    let mut cons = String::new();
    push_char(&mut cons, c);
    if word.len() > 1 {
        let nc = word[1];
        if is_ascii_alphabetic(nc) && !is_vowel(nc) {
            push_char(&mut cons, nc);
            assert(cons@ =~= word@.take(2));
        } else {
            assert(cons@ =~= word@.take(1));
        }
    } else {
        assert(cons@ =~= word@.take(1));
    }
    CharType::Consonant(cons)
}

/// Returns a typed first letter.
pub fn get_typed_char(word: &str) -> (r: CharType)
    ensures
        r is Vowel <==> opens_with_vowel(word@),
        r is Empty <==> (!opens_with_vowel(word@) && !opens_with_consonant(word@)),
        r matches CharType::Consonant(cons) ==> opens_with_consonant(word@) && cons@
            == consonant_cluster(word@),
{
    let cs = chars_of(word);
    classify_word(&cs)
}

/// Number of characters before the first (Unicode) letter.
pub open spec fn leading_non_alpha(p: Seq<char>) -> nat
    decreases p.len(),
{
    if p.len() == 0 {
        0
    } else if unicode_alphabetic(p[0]) {
        0
    } else {
        1 + leading_non_alpha(p.drop_first())
    }
}

/// What is appended behind the hyphen: the cluster and `ay`, `ay`, or nothing.
pub open spec fn word_suffix(w: Seq<char>) -> Seq<char> {
    if opens_with_consonant(w) {
        consonant_cluster(w) + seq!['a', 'y']
    } else if opens_with_vowel(w) {
        seq!['a', 'y']
    } else {
        seq![]
    }
}

/// How many opening characters of the word move into the suffix.
pub open spec fn moved_len(w: Seq<char>) -> int {
    if opens_with_consonant(w) {
        consonant_cluster(w).len() as int
    } else {
        0
    }
}

/// Pig latin of one part (a prefix of non-letters, then the word).
pub open spec fn pig_part(p: Seq<char>) -> Seq<char> {
    let idx = leading_non_alpha(p) as int;
    let prefix = p.take(idx);
    let word = p.skip(idx);
    let rest = word.skip(moved_len(word));
    let letters = rest.filter(ascii_alpha_pred());
    let ending = rest.filter(non_ascii_alpha_pred());
    if letters.len() == 0 {
        prefix + word_suffix(word) + ending
    } else {
        prefix + letters + seq!['-'] + word_suffix(word) + ending
    }
}

/// Pig latin of `s`, where `cur` is the part read so far: a part ends after
/// each non-alphanumeric character, and at the end of the text.
pub open spec fn pig_scan(s: Seq<char>, cur: Seq<char>) -> Seq<char>
    decreases s.len(),
{
    if s.len() == 0 {
        if cur.len() == 0 {
            seq![]
        } else {
            pig_part(cur)
        }
    } else if !unicode_alphanumeric(s[0]) {
        pig_part(cur.push(s[0])) + pig_scan(s.drop_first(), seq![])
    } else {
        pig_scan(s.drop_first(), cur.push(s[0]))
    }
}

/// Pig latin of a whole text.
pub open spec fn pig_latin(s: Seq<char>) -> Seq<char> {
    pig_scan(s, seq![])
}

proof fn lemma_leading_non_alpha(p: Seq<char>, i: int)
    requires
        0 <= i <= p.len(),
        forall|j: int| 0 <= j < i ==> !unicode_alphabetic(#[trigger] p[j]),
        i == p.len() || unicode_alphabetic(p[i]),
    ensures
        leading_non_alpha(p) == i,
    decreases i,
{
    if i > 0 {
        let q = p.drop_first();
        assert forall|j: int| 0 <= j < i - 1 implies !unicode_alphabetic(#[trigger] q[j]) by {
            assert(q[j] == p[j + 1]);
        }
        if i < p.len() {
            assert(q[i - 1] == p[i]);
        }
        assert(!unicode_alphabetic(p[0]));
        lemma_leading_non_alpha(q, i - 1);
    }
}

/// Appends the characters of `src` to `dst`.
fn extend_chars(dst: &mut Vec<char>, src: &Vec<char>)
    ensures
        final(dst)@ == old(dst)@ + src@,
{
    let n = src.len();
    for i in 0..n
        invariant
            n == src@.len(),
            dst@ == old(dst)@ + src@.take(i as int),
    {
        dst.push(src[i]);
        assert(src@.take(i + 1) == src@.take(i as int).push(src@[i as int]));
    }
    assert(src@.take(n as int) == src@);
}

/// Converts one part to pig latin.
pub fn convert_part(p: &Vec<char>) -> (r: Vec<char>)
    ensures
        r@ == pig_part(p@),
{
    let n = p.len();
    let mut i: usize = 0;
    while i < n && !is_alphabetic(p[i])
        invariant
            i <= n,
            n == p@.len(),
            forall|j: int| 0 <= j < i ==> !unicode_alphabetic(#[trigger] p@[j]),
        decreases n - i,
    {
        i = i + 1;
    }
    proof {
        lemma_leading_non_alpha(p@, i as int);
    }
    let mut out: Vec<char> = Vec::new();
    for j in 0..i
        invariant
            i <= n,
            n == p@.len(),
            out@ == p@.take(j as int),
    {
        out.push(p[j]);
        assert(p@.take(j + 1) == p@.take(j as int).push(p@[j as int]));
    }
    let mut word: Vec<char> = Vec::new();
    for j in i..n
        invariant
            i <= n,
            n == p@.len(),
            word@ == p@.subrange(i as int, j as int),
    {
        word.push(p[j]);
        assert(p@.subrange(i as int, j + 1) == p@.subrange(i as int, j as int).push(p@[j as int]));
    }
    assert(word@ == p@.skip(i as int));
    let ghost w = word@;
    let (suffix, k) = match classify_word(&word) {
        CharType::Consonant(cons) => {
            let mut sfx = chars_of(cons.as_str());
            let k = sfx.len();
            sfx.push('a');
            sfx.push('y');
            assert(sfx@ =~= consonant_cluster(w) + seq!['a', 'y']);
            (sfx, k)
        },
        CharType::Vowel => {
            let mut sfx: Vec<char> = Vec::new();
            sfx.push('a');
            sfx.push('y');
            assert(sfx@ =~= seq!['a', 'y']);
            (sfx, 0)
        },
        CharType::Empty => {
            let sfx: Vec<char> = Vec::new();
            assert(sfx@ =~= seq![]);
            (sfx, 0)
        },
    };
    assert(suffix@ == word_suffix(w));
    assert(k == moved_len(w));
    let wn = word.len();
    let ghost rest = w.skip(k as int);
    let mut letters: Vec<char> = Vec::new();
    let mut ending: Vec<char> = Vec::new();
    for j in k..wn
        invariant
            k <= wn,
            wn == w.len(),
            word@ == w,
            rest == w.skip(k as int),
            letters@ == w.subrange(k as int, j as int).filter(ascii_alpha_pred()),
            ending@ == w.subrange(k as int, j as int).filter(non_ascii_alpha_pred()),
    {
        let c = word[j];
        let ghost before = w.subrange(k as int, j as int);
        let ghost after = w.subrange(k as int, j + 1);
        assert(after.drop_last() == before);
        assert(after.last() == c);
        proof {
            reveal_with_fuel(Seq::<_>::filter, 1);
        }
        if is_ascii_alphabetic(c) {
            letters.push(c);
        } else {
            ending.push(c);
        }
    }
    assert(w.subrange(k as int, wn as int) == rest);
    if letters.len() == 0 {
        let mut s = suffix;
        extend_chars(&mut out, &s);
        extend_chars(&mut out, &ending);
    } else {
        out.append(&mut letters);
        out.push('-');
        extend_chars(&mut out, &suffix);
        extend_chars(&mut out, &ending);
    }
    out
}

/// Convert strings to pig latin.
/// The first consonant of each word is moved to the end of the word and ay is added,
/// so first becomes irst-fay. Words that start with a vowel have ay added instead
/// (apple becomes apple-ay).
pub fn to_pig_latin(s: &str) -> (r: String)
    ensures
        r@ == pig_latin(s@),
{
    let cs = chars_of(s);
    let n = cs.len();
    let mut result: Vec<char> = Vec::new();
    let mut cur: Vec<char> = Vec::new();
    assert(cs@.skip(0) =~= cs@);
    assert(result@ + pig_scan(cs@.skip(0), cur@) =~= pig_latin(s@));
    for i in 0..n
        invariant
            n == cs@.len(),
            cs@ == s@,
            result@ + pig_scan(cs@.skip(i as int), cur@) == pig_latin(s@),
    {
        let c = cs[i];
        let ghost rest = cs@.skip(i as int);
        assert(rest[0] == c);
        assert(rest.drop_first() == cs@.skip(i + 1));
        let ghost cur0 = cur@;
        cur.push(c);
        if !is_alphanumeric(c) {
            let mut out = convert_part(&cur);
            assert(pig_scan(rest, cur0) == out@ + pig_scan(cs@.skip(i + 1), seq![]));
            result.append(&mut out);
            cur = Vec::new();
        } else {
            assert(pig_scan(rest, cur0) == pig_scan(cs@.skip(i + 1), cur@));
        }
    }
    if cur.len() > 0 {
        let mut out = convert_part(&cur);
        result.append(&mut out);
    }
    assert(cs@.skip(n as int) =~= seq![]);
    string_of(&result)
}

/// A part without letters is its own pig latin.
proof fn lemma_part_without_letters(p: Seq<char>)
    requires
        forall|i: int| 0 <= i < p.len() ==> !unicode_alphabetic(#[trigger] p[i]),
    ensures
        pig_part(p) == p,
{
    lemma_leading_non_alpha(p, p.len() as int);
    let word = p.skip(p.len() as int);
    assert(word =~= Seq::<char>::empty());
    let rest = word.skip(moved_len(word));
    assert(rest =~= Seq::<char>::empty());
    assert(rest.filter(ascii_alpha_pred()) =~= Seq::<char>::empty()) by {
        reveal(Seq::filter);
    }
    assert(rest.filter(non_ascii_alpha_pred()) =~= Seq::<char>::empty()) by {
        reveal(Seq::filter);
    }
    assert(p.take(p.len() as int) =~= p);
    assert(pig_part(p) =~= p);
}

proof fn lemma_scan_without_letters(s: Seq<char>, cur: Seq<char>)
    requires
        forall|i: int| 0 <= i < s.len() ==> !unicode_alphabetic(#[trigger] s[i]),
        forall|i: int| 0 <= i < cur.len() ==> !unicode_alphabetic(#[trigger] cur[i]),
    ensures
        pig_scan(s, cur) == cur + s,
    decreases s.len(),
{
    if s.len() == 0 {
        if cur.len() > 0 {
            lemma_part_without_letters(cur);
        }
        assert(cur + s =~= cur);
    } else {
        let c = s[0];
        let t = s.drop_first();
        assert forall|i: int| 0 <= i < t.len() implies !unicode_alphabetic(#[trigger] t[i]) by {
            assert(t[i] == s[i + 1]);
        }
        let next = cur.push(c);
        assert forall|i: int| 0 <= i < next.len() implies !unicode_alphabetic(#[trigger] next[i]) by {
            if i < cur.len() {
                assert(next[i] == cur[i]);
            } else {
                assert(next[i] == s[0]);
            }
        }
        if !unicode_alphanumeric(c) {
            lemma_part_without_letters(next);
            lemma_scan_without_letters(t, seq![]);
            assert(seq![] + t =~= t);
        } else {
            lemma_scan_without_letters(t, next);
        }
        assert(next + t =~= cur + s);
    }
}

/// A text without letters is its own pig latin.
pub proof fn law_text_without_letters_unchanged(s: Seq<char>)
    requires
        forall|i: int| 0 <= i < s.len() ==> !unicode_alphabetic(#[trigger] s[i]),
    ensures
        pig_latin(s) == s,
{
    lemma_scan_without_letters(s, seq![]);
    assert(seq![] + s =~= s);
}


proof fn lemma_pig_scan_split(a: Seq<char>, b: Seq<char>, cur: Seq<char>)
    requires
        a.len() > 0,
        !unicode_alphanumeric(a.last()),
    ensures
        pig_scan(a + b, cur) == pig_scan(a, cur) + pig_latin(b),
    decreases a.len(),
{
    let ab = a + b;
    let a1 = a.drop_first();
    assert(ab[0] == a[0]);
    assert(ab.drop_first() =~= a1 + b);
    if a.len() == 1 {
        assert(a1 =~= Seq::<char>::empty());
        assert(a1 + b =~= b);
        assert(a[0] == a.last());
        assert(pig_scan(a1, seq![]) =~= Seq::<char>::empty());
        assert(pig_scan(a, cur) =~= pig_part(cur.push(a[0])));
    } else {
        assert(a1.last() == a.last());
        if !unicode_alphanumeric(a[0]) {
            lemma_pig_scan_split(a1, b, seq![]);
            assert(pig_part(cur.push(a[0])) + (pig_scan(a1, seq![]) + pig_latin(b)) =~= pig_part(
                cur.push(a[0]),
            ) + pig_scan(a1, seq![]) + pig_latin(b));
        } else {
            lemma_pig_scan_split(a1, b, cur.push(a[0]));
        }
    }
}

/// Parts are converted independently: a text cut just after a character that
/// is not a letter or digit converts as its two pieces, one after the other.
pub proof fn law_pig_latin_splits_after_separator(a: Seq<char>, b: Seq<char>)
    requires
        a.len() > 0,
        !unicode_alphanumeric(a.last()),
    ensures
        pig_latin(a + b) == pig_latin(a) + pig_latin(b),
{
    lemma_pig_scan_split(a, b, seq![]);
}


/// The vowels are exactly the ten characters of `aeiouAEIOU`.
pub proof fn law_vowels_are_aeiou(c: char)
    ensures
        spec_is_vowel(c) <==> "aeiouAEIOU"@.contains(c),
        spec_is_omit_cons(c) <==> "hH"@.contains(c),
{
    reveal_strlit("aeiouAEIOU");
    reveal_strlit("hH");
    let v = "aeiouAEIOU"@;
    if spec_is_vowel(c) {
        if c == 'a' { assert(v[0] == c); }
        if c == 'e' { assert(v[1] == c); }
        if c == 'i' { assert(v[2] == c); }
        if c == 'o' { assert(v[3] == c); }
        if c == 'u' { assert(v[4] == c); }
        if c == 'A' { assert(v[5] == c); }
        if c == 'E' { assert(v[6] == c); }
        if c == 'I' { assert(v[7] == c); }
        if c == 'O' { assert(v[8] == c); }
        if c == 'U' { assert(v[9] == c); }
    }
    if spec_is_omit_cons(c) {
        if c == 'h' { assert("hH"@[0] == c); }
        if c == 'H' { assert("hH"@[1] == c); }
    }
}

proof fn lemma_filter_all(s: Seq<char>, p: spec_fn(char) -> bool)
    requires
        forall|i: int| 0 <= i < s.len() ==> p(#[trigger] s[i]),
    ensures
        s.filter(p) == s,
    decreases s.len(),
{
    reveal_with_fuel(Seq::<_>::filter, 1);
    if s.len() > 0 {
        let t = s.drop_last();
        assert forall|i: int| 0 <= i < t.len() implies p(#[trigger] t[i]) by {
            assert(t[i] == s[i]);
        }
        lemma_filter_all(t, p);
        assert(t.push(s.last()) =~= s);
    } else {
        assert(s.filter(p) =~= s);
    }
}

proof fn lemma_filter_none(s: Seq<char>, p: spec_fn(char) -> bool)
    requires
        forall|i: int| 0 <= i < s.len() ==> !p(#[trigger] s[i]),
    ensures
        s.filter(p) == Seq::<char>::empty(),
    decreases s.len(),
{
    reveal_with_fuel(Seq::<_>::filter, 1);
    if s.len() > 0 {
        let t = s.drop_last();
        assert forall|i: int| 0 <= i < t.len() implies !p(#[trigger] t[i]) by {
            assert(t[i] == s[i]);
        }
        lemma_filter_none(t, p);
    } else {
        assert(s.filter(p) =~= Seq::<char>::empty());
    }
}

/// A run of letters and digits is one part: it is converted as a whole.
proof fn lemma_scan_alphanumeric(s: Seq<char>, cur: Seq<char>)
    requires
        forall|i: int| 0 <= i < s.len() ==> unicode_alphanumeric(#[trigger] s[i]),
        (cur + s).len() > 0,
    ensures
        pig_scan(s, cur) == pig_part(cur + s),
    decreases s.len(),
{
    if s.len() == 0 {
        assert(cur + s =~= cur);
    } else {
        let t = s.drop_first();
        assert forall|i: int| 0 <= i < t.len() implies unicode_alphanumeric(#[trigger] t[i]) by {
            assert(t[i] == s[i + 1]);
        }
        assert(unicode_alphanumeric(s[0]));
        assert(cur.push(s[0]) + t =~= cur + s);
        lemma_scan_alphanumeric(t, cur.push(s[0]));
    }
}

/// A word of letters that starts with one of `aeiouAEIOU` keeps its letters
/// and gets `-ay` (`orange` -> `orange-ay`). The word's characters are ASCII
/// letters, which std counts as alphabetic and alphanumeric.
pub proof fn law_vowel_word_gets_ay(w: Seq<char>)
    requires
        w.len() > 0,
        "aeiouAEIOU"@.contains(w[0]),
        forall|i: int| 0 <= i < w.len() ==> is_ascii_alpha(#[trigger] w[i]) && unicode_alphanumeric(w[i]),
        unicode_alphabetic(w[0]),
    ensures
        pig_latin(w) == w + "-ay"@,
{
    reveal_strlit("-ay");
    law_vowels_are_aeiou(w[0]);
    assert(Seq::<char>::empty() + w =~= w);
    lemma_scan_alphanumeric(w, seq![]);
    assert(leading_non_alpha(w) == 0);
    assert(w.skip(0) =~= w);
    assert(w.take(0) =~= Seq::<char>::empty());
    assert(opens_with_vowel(w));
    assert(!opens_with_consonant(w));
    lemma_filter_all(w, ascii_alpha_pred());
    lemma_filter_none(w, non_ascii_alpha_pred());
    assert(pig_part(w) =~= w + "-ay"@);
}

/// A word of letters that starts with a consonant other than `h` moves its
/// consonant cluster (the first letter, with the second when that is not one
/// of `aeiouAEIOU`) behind a hyphen and adds `ay` (`first` -> `irst-fay`).
pub proof fn law_consonant_word_moves_cluster(w: Seq<char>)
    requires
        w.len() > 0,
        !"aeiouAEIOUhH"@.contains(w[0]),
        forall|i: int| 0 <= i < w.len() ==> is_ascii_alpha(#[trigger] w[i]) && unicode_alphanumeric(w[i]),
        unicode_alphabetic(w[0]),
    ensures
        ({
            let k = if w.len() > 1 && !"aeiouAEIOU"@.contains(w[1]) { 2int } else { 1int };
            pig_latin(w) == if w.len() > k {
                w.skip(k) + "-"@ + w.take(k) + "ay"@
            } else {
                w + "ay"@
            }
        }),
{
    reveal_strlit("-");
    reveal_strlit("ay");
    reveal_strlit("aeiouAEIOUhH");
    reveal_strlit("aeiouAEIOU");
    law_vowels_are_aeiou(w[0]);
    let all = "aeiouAEIOUhH"@;
    assert forall|j: int| 0 <= j < 10 implies all[j] == #[trigger] "aeiouAEIOU"@[j] by {}
    assert(!spec_is_vowel(w[0])) by {
        if "aeiouAEIOU"@.contains(w[0]) {
            let j = choose|j: int| 0 <= j < 10 && "aeiouAEIOU"@[j] == w[0];
            assert(all[j] == w[0]);
        }
    }
    assert(!spec_is_omit_cons(w[0])) by {
        if "hH"@.contains(w[0]) {
            reveal_strlit("hH");
            let j = choose|j: int| 0 <= j < 2 && "hH"@[j] == w[0];
            assert(all[10 + j] == w[0]);
        }
    }
    if w.len() > 1 {
        law_vowels_are_aeiou(w[1]);
    }
    assert(Seq::<char>::empty() + w =~= w);
    lemma_scan_alphanumeric(w, seq![]);
    assert(leading_non_alpha(w) == 0);
    assert(w.skip(0) =~= w);
    assert(w.take(0) =~= Seq::<char>::empty());
    assert(opens_with_consonant(w));
    let k = moved_len(w);
    let rest = w.skip(k);
    assert forall|i: int| 0 <= i < rest.len() implies is_ascii_alpha(#[trigger] rest[i]) by {
        assert(rest[i] == w[i + k]);
    }
    lemma_filter_all(rest, ascii_alpha_pred());
    lemma_filter_none(rest, non_ascii_alpha_pred());
    if w.len() > k {
        assert(pig_part(w) =~= w.skip(k) + "-"@ + w.take(k) + "ay"@);
    } else {
        assert(w.take(k) =~= w);
        assert(rest =~= Seq::<char>::empty());
        assert(pig_part(w) =~= w + "ay"@);
    }
}

} // verus!
