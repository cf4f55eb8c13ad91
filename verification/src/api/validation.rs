//! Validated request payloads, and the message of a validation failure.
use vstd::prelude::*;
use vstd::string::StringExecFns;
use crate::common::item_fields::{errors_text, errors_view, ValidationErrors};
use crate::strings::{chars_of, push_char, to_owned_string};

verus! {

/// A form payload that passed its validation.
#[derive(Debug, Default)]
pub struct ValidatedForm<T>(pub T);

/// A JSON payload that passed its validation.
#[derive(Debug)]
pub struct ValidatedJson<J>(pub J);

/// Every `'\n'` replaced by `", "`.
pub open spec fn newlines_as_commas(s: Seq<char>) -> Seq<char>
    decreases s.len(),
{
    if s.len() == 0 {
        s
    } else {
        newlines_as_commas(s.drop_last()) + (if s.last() == '\n' {
            seq![',', ' ']
        } else {
            seq![s.last()]
        })
    }
}

/// The message of a rejected payload.
pub open spec fn validation_message(errs: Seq<(Seq<char>, Seq<char>)>) -> Seq<char> {
    newlines_as_commas("Input validation error: ["@ + errors_text(errs) + "]"@)
}

/// The message of a rejected payload: the text of its failed checks inside
/// `Input validation error: [...]`, on one line.
pub fn validation_error_message(errs: &ValidationErrors) -> (r: String)
    ensures
        r@ == validation_message(errors_view(errs.errors@)),
{
    let mut full = to_owned_string("Input validation error: [");
    let text = errs.to_string();
    full.append(text.as_str());
    full.append("]");
    let cs = chars_of(full.as_str());
    let mut r = String::new();
    let n = cs.len();
    for k in 0..n
        invariant
            n == cs@.len(),
            cs@ == full@,
            r@ == newlines_as_commas(cs@.take(k as int)),
    {
        if cs[k] == '\n' {
            push_char(&mut r, ',');
            push_char(&mut r, ' ');
        } else {
            push_char(&mut r, cs[k]);
        }
        proof {
            let t = cs@.take(k + 1);
            assert(t.drop_last() =~= cs@.take(k as int));
            assert(t.last() == cs@[k as int]);
            assert(r@ =~= newlines_as_commas(t));
        }
    }
    assert(cs@.take(n as int) =~= cs@);
    r
}

} // verus!
