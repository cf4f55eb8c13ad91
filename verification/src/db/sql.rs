//! Text of SQL statements: decimal numbers, joined lists, `SET` clauses,
//! paging, and the values bound to the `?` placeholders.
use vstd::prelude::*;
use vstd::string::StringExecFns;
use crate::strings::{
    all_digits, digit_value, digits_value, is_ascii_digit, push_char, to_owned_string,
    unsigned_value,
};

verus! {

/// A value bound to a `?` placeholder, in order.
#[derive(Debug, PartialEq)]
pub enum SqlValue {
    Null,
    Int(i64),
    Text(String),
    Bool(bool),
}

/// What a bound value is, in the model.
pub enum SqlValueView {
    Null,
    Int(int),
    Text(Seq<char>),
    Bool(bool),
}

impl View for SqlValue {
    type V = SqlValueView;

    open spec fn view(&self) -> SqlValueView {
        match self {
            SqlValue::Null => SqlValueView::Null,
            SqlValue::Int(i) => SqlValueView::Int(*i as int),
            SqlValue::Text(s) => SqlValueView::Text(s@),
            SqlValue::Bool(b) => SqlValueView::Bool(*b),
        }
    }
}

/// A statement and the values for its placeholders.
pub struct SqlQuery {
    pub sql: String,
    pub binds: Vec<SqlValue>,
}

/// The bound values of a query, in the model.
pub open spec fn binds_view(binds: Seq<SqlValue>) -> Seq<SqlValueView> {
    binds.map_values(|v: SqlValue| v@)
}

/// An optional text: `NULL` when absent.
pub open spec fn opt_text(o: Option<Seq<char>>) -> SqlValueView {
    match o {
        Some(t) => SqlValueView::Text(t),
        None => SqlValueView::Null,
    }
}

/// An optional integer: `NULL` when absent.
pub open spec fn opt_int(o: Option<i64>) -> SqlValueView {
    match o {
        Some(i) => SqlValueView::Int(i as int),
        None => SqlValueView::Null,
    }
}

/// An optional integer value: `NULL` when absent.
pub fn opt_int_value(o: Option<i64>) -> (r: SqlValue)
    ensures
        r@ == opt_int(o),
{
    match o {
        Some(i) => SqlValue::Int(i),
        None => SqlValue::Null,
    }
}

/// The view of an optional string slice.
pub open spec fn str_opt(o: Option<&str>) -> Option<Seq<char>> {
    match o {
        Some(s) => Some(s@),
        None => None,
    }
}

/// The decimal digit for `d < 10`.
pub open spec fn digit_char(d: nat) -> char {
    if d == 0 {
        '0'
    } else if d == 1 {
        '1'
    } else if d == 2 {
        '2'
    } else if d == 3 {
        '3'
    } else if d == 4 {
        '4'
    } else if d == 5 {
        '5'
    } else if d == 6 {
        '6'
    } else if d == 7 {
        '7'
    } else if d == 8 {
        '8'
    } else {
        '9'
    }
}

/// Decimal notation of a natural number, without leading zeros (`"0"` for zero).
pub open spec fn decimal(n: nat) -> Seq<char>
    decreases n,
{
    if n < 10 {
        seq![digit_char(n)]
    } else {
        decimal(n / 10).push(digit_char(n % 10))
    }
}

/// Decimal notation of an integer, with a leading `'-'` when negative.
pub open spec fn signed_decimal(i: int) -> Seq<char> {
    if i < 0 {
        seq!['-'] + decimal((-i) as nat)
    } else {
        decimal(i as nat)
    }
}

/// The decimal notations of `ids`, separated by `sep`.
pub open spec fn joined_ids(ids: Seq<i64>, sep: Seq<char>) -> Seq<char>
    decreases ids.len(),
{
    if ids.len() == 0 {
        Seq::empty()
    } else if ids.len() == 1 {
        signed_decimal(ids[0] as int)
    } else {
        joined_ids(ids.drop_last(), sep) + sep + signed_decimal(ids.last() as int)
    }
}

/// The texts of `parts`, separated by `sep`.
pub open spec fn joined(parts: Seq<Seq<char>>, sep: Seq<char>) -> Seq<char>
    decreases parts.len(),
{
    if parts.len() == 0 {
        Seq::empty()
    } else if parts.len() == 1 {
        parts[0]
    } else {
        joined(parts.drop_last(), sep) + sep + parts.last()
    }
}

/// The fragments whose condition holds, in order.
pub open spec fn selected(parts: Seq<(bool, Seq<char>)>) -> Seq<Seq<char>>
    decreases parts.len(),
{
    if parts.len() == 0 {
        Seq::empty()
    } else if parts.last().0 {
        selected(parts.drop_last()).push(parts.last().1)
    } else {
        selected(parts.drop_last())
    }
}

/// The conditions and fragments, in the model.
pub open spec fn parts_view(parts: Seq<(bool, &str)>) -> Seq<(bool, Seq<char>)> {
    parts.map_values(|p: (bool, &str)| (p.0, p.1@))
}

/// The `LIKE` pattern that matches any text containing `s`.
pub open spec fn like_pattern(s: Seq<char>) -> Seq<char> {
    seq!['%'] + s + seq!['%']
}

/// An optional text value: `NULL` when absent.
pub fn opt_value(o: Option<&str>) -> (r: SqlValue)
    ensures
        r@ == opt_text(str_opt(o)),
{
    match o {
        Some(s) => SqlValue::Text(to_owned_string(s)),
        None => SqlValue::Null,
    }
}

/// The decimal digit of `d`.
fn digit(d: u64) -> (c: char)
    requires
        d < 10,
    ensures
        c == digit_char(d as nat),
{
    if d == 0 {
        '0'
    } else if d == 1 {
        '1'
    } else if d == 2 {
        '2'
    } else if d == 3 {
        '3'
    } else if d == 4 {
        '4'
    } else if d == 5 {
        '5'
    } else if d == 6 {
        '6'
    } else if d == 7 {
        '7'
    } else if d == 8 {
        '8'
    } else {
        '9'
    }
}

/// Appends the decimal notation of `n`.
pub fn push_decimal(s: &mut String, n: u64)
    ensures
        final(s)@ == old(s)@ + decimal(n as nat),
    decreases n,
{
    if n < 10 {
        push_char(s, digit(n));
    } else {
        push_decimal(s, n / 10);
        push_char(s, digit(n % 10));
        assert(decimal(n as nat) == decimal((n / 10) as nat).push(digit_char((n % 10) as nat)));
    }
}

/// Appends the decimal notation of `i`, with `'-'` when negative.
pub fn push_signed_decimal(s: &mut String, i: i64)
    ensures
        final(s)@ == old(s)@ + signed_decimal(i as int),
{
    if i < 0 {
        push_char(s, '-');
        let m: u64 = if i == i64::MIN {
            9223372036854775808u64
        } else {
            (-i) as u64
        };
        push_decimal(s, m);
        assert(old(s)@.push('-') + decimal(m as nat) =~= old(s)@ + (seq!['-'] + decimal(m as nat)));
    } else {
        push_decimal(s, i as u64);
    }
}

/// Appends the decimal notations of `ids`, separated by `sep`.
pub fn push_joined_ids(s: &mut String, ids: &Vec<i64>, sep: &str)
    ensures
        final(s)@ == old(s)@ + joined_ids(ids@, sep@),
{
    let ghost start = s@;
    let n = ids.len();
    for k in 0..n
        invariant
            n == ids@.len(),
            s@ == start + joined_ids(ids@.take(k as int), sep@),
    {
        if k > 0 {
            s.append(sep);
        }
        push_signed_decimal(s, ids[k]);
        proof {
            let t = ids@.take(k + 1);
            assert(t.drop_last() =~= ids@.take(k as int));
            assert(t.last() == ids@[k as int]);
            if k == 0 {
                assert(joined_ids(t, sep@) == signed_decimal(ids@[0] as int));
                assert(ids@.take(0) =~= Seq::<i64>::empty());
            }
            assert(s@ =~= start + joined_ids(t, sep@));
        }
    }
    assert(ids@.take(n as int) =~= ids@);
}

/// The fragments whose condition holds, separated by `", "` (the `SET` list
/// of an `UPDATE`); empty when no condition holds.
pub fn build_set(parts: &Vec<(bool, &str)>) -> (r: String)
    ensures
        r@ == joined(selected(parts_view(parts@)), ", "@),
{
    let mut r = String::new();
    let mut count: usize = 0;
    let n = parts.len();
    let ghost pv = parts_view(parts@);
    for k in 0..n
        invariant
            n == parts@.len(),
            pv == parts_view(parts@),
            count == selected(pv.take(k as int)).len(),
            count <= k,
            r@ == joined(selected(pv.take(k as int)), ", "@),
    {
        let (cond, frag) = parts[k];
        proof {
            let t = pv.take(k + 1);
            assert(t.drop_last() =~= pv.take(k as int));
            assert(t.last() == (cond, frag@));
        }
        if cond {
            if count > 0 {
                r.append(", ");
            }
            r.append(frag);
            count = count + 1;
            proof {
                let sel = selected(pv.take(k as int));
                let sel2 = selected(pv.take(k + 1));
                assert(sel2 == sel.push(frag@));
                assert(sel2.drop_last() =~= sel);
                if sel.len() == 0 {
                    assert(r@ =~= joined(sel2, ", "@));
                } else {
                    assert(r@ =~= joined(sel2, ", "@));
                }
            }
        }
    }
    assert(pv.take(n as int) =~= pv);
    r
}

/// The `LIKE` pattern that matches any text containing `s`.
pub fn like_text(s: &str) -> (r: String)
    ensures
        r@ == like_pattern(s@),
{
    let mut r = String::new();
    push_char(&mut r, '%');
    r.append(s);
    push_char(&mut r, '%');
    assert(r@ =~= like_pattern(s@));
    r
}

/// Every character of a decimal notation is a digit, the first is not `'+'`,
/// and the digits are worth the number.
pub proof fn lemma_decimal_digits(n: nat)
    ensures
        decimal(n).len() > 0,
        all_digits(decimal(n)),
        decimal(n)[0] != '+',
        digits_value(decimal(n)) == n,
    decreases n,
{
    if n >= 10 {
        lemma_decimal_digits(n / 10);
        let d = decimal(n / 10);
        let s = d.push(digit_char(n % 10));
        assert(s.drop_last() =~= d);
        assert(s[0] == d[0]);
        assert forall|i: int| 0 <= i < s.len() implies is_ascii_digit(#[trigger] s[i]) by {
            if i < d.len() {
                assert(s[i] == d[i]);
            }
        }
        assert(digit_value(digit_char(n % 10)) == n % 10);
        assert(s.last() == digit_char(n % 10));
        assert(digits_value(s) == digits_value(d) * 10 + digit_value(s.last()));
        assert(digits_value(d) == n / 10);
        assert((n / 10) * 10 + n % 10 == n) by (nonlinear_arith);
        assert(decimal(n) == s);
    } else {
        let s = seq![digit_char(n)];
        assert(s.drop_last() =~= Seq::<char>::empty());
        assert(digits_value(Seq::<char>::empty()) == 0);
        assert(digit_value(digit_char(n)) == n);
        assert(digits_value(s) == digits_value(s.drop_last()) * 10 + digit_value(s.last()));
    }
}

/// Reading back a number written in decimal gives the number: what
/// `push_decimal` writes, `parse_bounded` reads as the same value.
pub proof fn law_decimal_reads_back(n: nat)
    ensures
        unsigned_value(decimal(n)) == Some(n),
{
    lemma_decimal_digits(n);
}

proof fn lemma_selected_empty(parts: Seq<(bool, Seq<char>)>)
    ensures
        selected(parts).len() == 0 <==> forall|i: int| 0 <= i < parts.len() ==> !(#[trigger] parts[i]).0,
        forall|k: int| 0 <= k < selected(parts).len() ==> exists|i: int|
            0 <= i < parts.len() && (#[trigger] selected(parts)[k]) == parts[i].1,
    decreases parts.len(),
{
    if parts.len() > 0 {
        let t = parts.drop_last();
        lemma_selected_empty(t);
        assert forall|i: int| 0 <= i < t.len() implies t[i] == parts[i] by {}
        if parts.last().0 {
            let sel = selected(parts);
            assert forall|k: int| 0 <= k < sel.len() implies exists|i: int|
                0 <= i < parts.len() && (#[trigger] sel[k]) == parts[i].1 by {
                if k < sel.len() - 1 {
                    let i = choose|i: int| 0 <= i < t.len() && selected(t)[k] == t[i].1;
                    assert(sel[k] == parts[i].1);
                } else {
                    assert(sel[k] == parts[parts.len() - 1].1);
                }
            }
        } else {
            assert(!parts[parts.len() - 1].0);
        }
    }
}

proof fn lemma_joined_empty(ps: Seq<Seq<char>>, sep: Seq<char>)
    requires
        forall|k: int| 0 <= k < ps.len() ==> (#[trigger] ps[k]).len() > 0,
    ensures
        joined(ps, sep).len() == 0 <==> ps.len() == 0,
{
    if ps.len() == 1 {
        assert(ps[0].len() > 0);
    } else if ps.len() > 1 {
        assert(ps.last() == ps[ps.len() - 1]);
    }
}

/// A `SET` list is empty exactly when no condition holds (its fragments being
/// non-empty): the test an update makes to refuse a change of nothing.
pub proof fn law_empty_set_means_no_field(parts: Seq<(bool, Seq<char>)>, sep: Seq<char>)
    requires
        forall|i: int| 0 <= i < parts.len() ==> (#[trigger] parts[i]).1.len() > 0,
    ensures
        joined(selected(parts), sep).len() == 0 <==> forall|i: int|
            0 <= i < parts.len() ==> !(#[trigger] parts[i]).0,
{
    lemma_selected_empty(parts);
    let sel = selected(parts);
    assert forall|k: int| 0 <= k < sel.len() implies (#[trigger] sel[k]).len() > 0 by {
        let i = choose|i: int| 0 <= i < parts.len() && sel[k] == parts[i].1;
    }
    lemma_joined_empty(sel, sep);
}

} // verus!
