//! Fields shared by new and patched boards and packages, and their validation.
use vstd::prelude::*;
use vstd::string::StringExecFns;
use vstd::string::StrSliceExecFns;
use crate::common::slug::{is_valid_slug, slug_text};
use crate::db::sql::str_opt;
use crate::strings::{push_char};

verus! {

/// Most characters in a name.
pub const NAME_MAX: usize = 100;

/// Fewest characters in a name.
pub const NAME_MIN: usize = 3;

/// Most characters in a description.
pub const DESCRIPTION_MAX: usize = 500;

/// Most characters in an icon.
pub const ICON_MAX: usize = 255;

/// One failed check: the field and the code of the check.
#[derive(Debug, Clone, Copy)]
pub struct FieldError {
    pub field: &'static str,
    pub code: &'static str,
}

/// The failed checks of a validation, in field order.
#[derive(Debug)]
pub struct ValidationErrors {
    pub errors: Vec<FieldError>,
}

/// The failed checks, as (field, code) pairs.
pub open spec fn errors_view(errors: Seq<FieldError>) -> Seq<(Seq<char>, Seq<char>)> {
    errors.map_values(|e: FieldError| (e.field@, e.code@))
}

/// One line of the text of a validation failure.
pub open spec fn error_line(e: (Seq<char>, Seq<char>)) -> Seq<char> {
    e.0 + ": Validation error: "@ + e.1
}

/// The lines of the failed checks, separated by `'\n'`.
pub open spec fn errors_text(errs: Seq<(Seq<char>, Seq<char>)>) -> Seq<char>
    decreases errs.len(),
{
    if errs.len() == 0 {
        Seq::empty()
    } else if errs.len() == 1 {
        error_line(errs[0])
    } else {
        errors_text(errs.drop_last()) + seq!['\n'] + error_line(errs.last())
    }
}

impl ValidationErrors {
    /// The text of the failure: one line `field: Validation error: code` per failed check.
    pub fn to_string(&self) -> (r: String)
        ensures
            r@ == errors_text(errors_view(self.errors@)),
    {
        let mut r = String::new();
        let n = self.errors.len();
        let ghost ev = errors_view(self.errors@);
        for k in 0..n
            invariant
                n == self.errors@.len(),
                ev == errors_view(self.errors@),
                r@ == errors_text(ev.take(k as int)),
        {
            if k > 0 {
                push_char(&mut r, '\n');
            }
            r.append(self.errors[k].field);
            r.append(": Validation error: ");
            r.append(self.errors[k].code);
            proof {
                let t = ev.take(k + 1);
                assert(t.drop_last() =~= ev.take(k as int));
                assert(t.last() == ev[k as int]);
                if k == 0 {
                    assert(r@ =~= errors_text(t));
                } else {
                    assert(r@ =~= errors_text(t));
                }
            }
        }
        assert(ev.take(n as int) =~= ev);
        r
    }
}

/// Shared new-item fields used by boards and packages.
#[derive(Debug)]
pub struct NewItemFields {
    pub name: String,
    /// A slug chosen by the client; derived from the name when absent.
    pub slug: Option<String>,
    pub description: Option<String>,
    pub icon: Option<String>,
    pub is_public: Option<bool>,
}

/// Shared patch-item fields used by boards and packages: `None` leaves a
/// field as it is; for `description` and `icon`, `Some(None)` clears it.
#[derive(Debug)]
pub struct PatchItemFields {
    pub name: Option<String>,
    pub description: Option<Option<String>>,
    pub icon: Option<Option<String>>,
    pub is_public: Option<bool>,
}

/// A length check on an optional text: absent text passes.
pub open spec fn too_long(t: Option<Seq<char>>, max: nat) -> bool {
    t matches Some(s) && s.len() > max
}

/// The view of an optional string.
pub open spec fn opt_view(o: Option<String>) -> Option<Seq<char>> {
    match o {
        Some(s) => Some(s@),
        None => None,
    }
}

/// The view of an optional optional string: the inner text when both are present.
pub open spec fn inner_view(o: Option<Option<String>>) -> Option<Seq<char>> {
    match o {
        Some(Some(s)) => Some(s@),
        _ => None,
    }
}

/// A borrowed optional string as an optional slice.
pub fn as_deref(o: &Option<String>) -> (r: Option<&str>)
    ensures
        str_opt(r) == opt_view(*o),
{
    match o {
        Some(s) => Some(s.as_str()),
        None => None,
    }
}

/// A borrowed optional optional string as an optional optional slice.
pub fn as_deref_nested(o: &Option<Option<String>>) -> (r: Option<Option<&str>>)
    ensures
        (r is Some <==> o is Some),
        r matches Some(x) ==> str_opt(x) == opt_view(o.unwrap()),
{
    match o {
        Some(inner) => Some(as_deref(inner)),
        None => None,
    }
}

/// A name of the right length.
pub open spec fn name_ok(n: Seq<char>) -> bool {
    NAME_MIN <= n.len() <= NAME_MAX
}

/// A slug accepted by the slug pattern.
pub open spec fn slug_ok(s: Seq<char>) -> bool {
    slug_text(s)
}

/// The failed checks of new-item fields, in field order.
pub open spec fn new_item_errors(f: NewItemFields) -> Seq<(Seq<char>, Seq<char>)> {
    (if !name_ok(f.name@) {
        seq![("name"@, "length"@)]
    } else {
        Seq::empty()
    }) + (if f.slug matches Some(s) && !slug_ok(s@) {
        seq![("slug"@, "slug_format"@)]
    } else {
        Seq::empty()
    }) + (if too_long(opt_view(f.description), DESCRIPTION_MAX as nat) {
        seq![("description"@, "length"@)]
    } else {
        Seq::empty()
    }) + (if too_long(opt_view(f.icon), ICON_MAX as nat) {
        seq![("icon"@, "length"@)]
    } else {
        Seq::empty()
    })
}

/// The failed checks of patch-item fields, in field order.
pub open spec fn patch_item_errors(f: PatchItemFields) -> Seq<(Seq<char>, Seq<char>)> {
    (if f.name matches Some(n) && !name_ok(n@) {
        seq![("name"@, "length"@)]
    } else {
        Seq::empty()
    }) + (if too_long(inner_view(f.description), DESCRIPTION_MAX as nat) {
        seq![("description"@, "length"@)]
    } else {
        Seq::empty()
    }) + (if too_long(inner_view(f.icon), ICON_MAX as nat) {
        seq![("icon"@, "length"@)]
    } else {
        Seq::empty()
    })
}

/// Number of characters of a string.
fn char_len(s: &String) -> (r: usize)
    ensures
        r == s@.len(),
{
    s.as_str().unicode_len()
}

/// Whether an optional text is longer than `max` characters.
fn opt_too_long(t: &Option<String>, max: usize) -> (r: bool)
    ensures
        r == too_long(opt_view(*t), max as nat),
{
    match t {
        Some(s) => char_len(s) > max,
        None => false,
    }
}

/// Whether the inner text of an optional optional text is longer than `max` characters.
fn inner_too_long(t: &Option<Option<String>>, max: usize) -> (r: bool)
    ensures
        r == too_long(inner_view(*t), max as nat),
{
    match t {
        Some(Some(s)) => char_len(s) > max,
        _ => false,
    }
}

/// The outcome of a validation from its failed checks.
fn outcome(errors: Vec<FieldError>) -> (r: Result<(), ValidationErrors>)
    ensures
        errors@.len() == 0 <==> r is Ok,
        r matches Err(e) ==> e.errors@ == errors@,
{
    if errors.len() == 0 {
        Ok(())
    } else {
        Err(ValidationErrors { errors })
    }
}

impl NewItemFields {
    /// Checks the fields: a name of 3 to 100 characters, a slug (when given)
    /// of the slug pattern, a description (when given) of at most 500
    /// characters and an icon (when given) of at most 255.
    pub fn validate(&self) -> (r: Result<(), ValidationErrors>)
        ensures
            r is Ok <==> new_item_errors(*self).len() == 0,
            r matches Err(e) ==> errors_view(e.errors@) == new_item_errors(*self),
    {
        let mut errors: Vec<FieldError> = Vec::new();
        let n = char_len(&self.name);
        if n < NAME_MIN || n > NAME_MAX {
            errors.push(FieldError { field: "name", code: "length" });
        }
        let ghost e1 = errors@;
        let bad_slug = match &self.slug {
            Some(s) => !is_valid_slug(s.as_str()),
            None => false,
        };
        if bad_slug {
            errors.push(FieldError { field: "slug", code: "slug_format" });
        }
        let ghost e2 = errors@;
        if opt_too_long(&self.description, DESCRIPTION_MAX) {
            errors.push(FieldError { field: "description", code: "length" });
        }
        if opt_too_long(&self.icon, ICON_MAX) {
            errors.push(FieldError { field: "icon", code: "length" });
        }
        assert(errors_view(errors@) =~= new_item_errors(*self));
        outcome(errors)
    }
}

impl PatchItemFields {
    /// Checks the given fields: a name of 3 to 100 characters, a
    /// description of at most 500 characters and an icon of at most 255.
    pub fn validate(&self) -> (r: Result<(), ValidationErrors>)
        ensures
            r is Ok <==> patch_item_errors(*self).len() == 0,
            r matches Err(e) ==> errors_view(e.errors@) == patch_item_errors(*self),
    {
        let mut errors: Vec<FieldError> = Vec::new();
        let bad_name = match &self.name {
            Some(n) => {
                let k = char_len(n);
                k < NAME_MIN || k > NAME_MAX
            },
            None => false,
        };
        if bad_name {
            errors.push(FieldError { field: "name", code: "length" });
        }
        if inner_too_long(&self.description, DESCRIPTION_MAX) {
            errors.push(FieldError { field: "description", code: "length" });
        }
        if inner_too_long(&self.icon, ICON_MAX) {
            errors.push(FieldError { field: "icon", code: "length" });
        }
        assert(errors_view(errors@) =~= patch_item_errors(*self));
        outcome(errors)
    }
}


/// A value is in a concatenation exactly when it is in one of the two parts.
pub proof fn lemma_concat_contains(a: Seq<(Seq<char>, Seq<char>)>, b: Seq<(Seq<char>, Seq<char>)>, x: (Seq<char>, Seq<char>))
    ensures
        (a + b).contains(x) <==> (a.contains(x) || b.contains(x)),
{
    if a.contains(x) {
        let i = choose|i: int| 0 <= i < a.len() && a[i] == x;
        assert((a + b)[i] == a[i]);
    }
    if b.contains(x) {
        let i = choose|i: int| 0 <= i < b.len() && b[i] == x;
        assert((a + b)[a.len() + i] == b[i]);
    }
    if (a + b).contains(x) {
        let i = choose|i: int| 0 <= i < (a + b).len() && (a + b)[i] == x;
        if i < a.len() {
            assert(a[i] == (a + b)[i]);
        } else {
            assert(b[i - a.len()] == (a + b)[i]);
        }
    }
}

/// The field names of the checks differ from each other.
pub proof fn lemma_field_names_differ()
    ensures
        "name"@ != "icon"@,
        "name"@ != "description"@,
        "description"@ != "icon"@,
        "slug"@ != "icon"@,
        "slug"@ != "description"@,
        "name"@ != "slug"@,
{
    reveal_strlit("name");
    reveal_strlit("icon");
    reveal_strlit("description");
    reveal_strlit("slug");
    assert("name"@[0] != "icon"@[0]);
    assert("name"@.len() != "description"@.len());
    assert("description"@.len() != "icon"@.len());
    assert("slug"@[0] != "icon"@[0]);
    assert("slug"@.len() != "description"@.len());
    assert("name"@[0] != "slug"@[0]);
}

/// A one-value sequence holds exactly that value.
pub proof fn lemma_single_contains(y: (Seq<char>, Seq<char>), x: (Seq<char>, Seq<char>))
    ensures
        seq![y].contains(x) <==> x == y,
{
    if x == y {
        assert(seq![y][0] == y);
    }
}

/// An update of a board or package fails on its icon exactly when an icon is
/// given and it is longer than 255 characters: the errors then hold
/// `icon: length`, whatever the other fields are.
pub proof fn law_patch_icon_is_checked(f: PatchItemFields)
    ensures
        patch_item_errors(f).contains(("icon"@, "length"@)) <==> (f.icon matches Some(Some(i)) && i@.len() > 255),
{
    lemma_field_names_differ();
    let a = if f.name matches Some(n) && !name_ok(n@) { seq![("name"@, "length"@)] } else { Seq::empty() };
    let b = if too_long(inner_view(f.description), DESCRIPTION_MAX as nat) { seq![("description"@, "length"@)] } else { Seq::empty() };
    let c = if too_long(inner_view(f.icon), ICON_MAX as nat) { seq![("icon"@, "length"@)] } else { Seq::empty() };
    let x = ("icon"@, "length"@);
    assert(patch_item_errors(f) == a + b + c);
    lemma_concat_contains(a + b, c, x);
    lemma_concat_contains(a, b, x);
    lemma_single_contains(("name"@, "length"@), x);
    lemma_single_contains(("description"@, "length"@), x);
    lemma_single_contains(x, x);
}

/// An update of a board or package fails on its description exactly when a
/// description is given and it is longer than 500 characters.
pub proof fn law_patch_description_is_checked(f: PatchItemFields)
    ensures
        patch_item_errors(f).contains(("description"@, "length"@)) <==> (f.description matches Some(Some(d))
            && d@.len() > 500),
{
    lemma_field_names_differ();
    let a = if f.name matches Some(n) && !name_ok(n@) { seq![("name"@, "length"@)] } else { Seq::empty() };
    let b = if too_long(inner_view(f.description), DESCRIPTION_MAX as nat) { seq![("description"@, "length"@)] } else { Seq::empty() };
    let c = if too_long(inner_view(f.icon), ICON_MAX as nat) { seq![("icon"@, "length"@)] } else { Seq::empty() };
    let x = ("description"@, "length"@);
    assert(patch_item_errors(f) == a + b + c);
    lemma_concat_contains(a + b, c, x);
    lemma_concat_contains(a, b, x);
    lemma_single_contains(("name"@, "length"@), x);
    lemma_single_contains(("icon"@, "length"@), x);
    lemma_single_contains(x, x);
}

/// An update of a board or package fails on its name exactly when a name is
/// given and it is shorter than 3 or longer than 100 characters.
pub proof fn law_patch_name_is_checked(f: PatchItemFields)
    ensures
        patch_item_errors(f).contains(("name"@, "length"@)) <==> (f.name matches Some(n) && !(3 <= n@.len()
            <= 100)),
{
    lemma_field_names_differ();
    let a = if f.name matches Some(n) && !name_ok(n@) { seq![("name"@, "length"@)] } else { Seq::empty() };
    let b = if too_long(inner_view(f.description), DESCRIPTION_MAX as nat) { seq![("description"@, "length"@)] } else { Seq::empty() };
    let c = if too_long(inner_view(f.icon), ICON_MAX as nat) { seq![("icon"@, "length"@)] } else { Seq::empty() };
    let x = ("name"@, "length"@);
    assert(patch_item_errors(f) == a + b + c);
    lemma_concat_contains(a + b, c, x);
    lemma_concat_contains(a, b, x);
    lemma_single_contains(("icon"@, "length"@), x);
    lemma_single_contains(("description"@, "length"@), x);
    lemma_single_contains(x, x);
}

/// A new board or package fails on its icon exactly when an icon is given and
/// it is longer than 255 characters, and on its description exactly when one
/// is given and it is longer than 500 characters.
pub proof fn law_new_icon_and_description_are_checked(f: NewItemFields)
    ensures
        new_item_errors(f).contains(("icon"@, "length"@)) <==> (f.icon matches Some(i) && i@.len() > 255),
        new_item_errors(f).contains(("description"@, "length"@)) <==> (f.description matches Some(d) && d@.len()
            > 500),
{
    lemma_field_names_differ();
    let a = if !name_ok(f.name@) { seq![("name"@, "length"@)] } else { Seq::empty() };
    let s = if f.slug matches Some(t) && !slug_ok(t@) { seq![("slug"@, "slug_format"@)] } else { Seq::empty() };
    let b = if too_long(opt_view(f.description), DESCRIPTION_MAX as nat) { seq![("description"@, "length"@)] } else { Seq::empty() };
    let c = if too_long(opt_view(f.icon), ICON_MAX as nat) { seq![("icon"@, "length"@)] } else { Seq::empty() };
    assert(new_item_errors(f) == a + s + b + c);
    let x = ("icon"@, "length"@);
    let y = ("description"@, "length"@);
    lemma_concat_contains(a + s + b, c, x);
    lemma_concat_contains(a + s, b, x);
    lemma_concat_contains(a, s, x);
    lemma_concat_contains(a + s + b, c, y);
    lemma_concat_contains(a + s, b, y);
    lemma_concat_contains(a, s, y);
    lemma_single_contains(("name"@, "length"@), x);
    lemma_single_contains(("slug"@, "slug_format"@), x);
    lemma_single_contains(y, x);
    lemma_single_contains(x, x);
    lemma_single_contains(("name"@, "length"@), y);
    lemma_single_contains(("slug"@, "slug_format"@), y);
    lemma_single_contains(x, y);
    lemma_single_contains(y, y);
}

} // verus!
