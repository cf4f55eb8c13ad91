//! Workshop items as the API shows them: links to entities, and the checks
//! on a new or changed item.
use vstd::prelude::*;
use vstd::string::StrSliceExecFns;
use crate::common::item_fields::{
    errors_view, lemma_concat_contains, lemma_field_names_differ, lemma_single_contains, FieldError,
    ValidationErrors,
};
use crate::common::slug::{item_slug_text, regex_is_match};
use crate::common::workshop_store::EntityWorkshopItemDb;

verus! {

/// Request to link a workshop item to an entity (package or board).
#[derive(Debug)]
pub struct LinkWorkshopItemRequest {
    pub workshop_item_id: i64,
    /// Package id for board imports.
    pub origin_id: Option<i64>,
    /// Board-specific name override.
    pub name: Option<String>,
}

/// Response model for entity-workshop-item association.
#[derive(Debug)]
pub struct EntityWorkshopItem {
    /// Entity id (package or board).
    pub item_id: i64,
    /// Workshop item id.
    pub workshop_item_id: i64,
    /// Package id for board imports, `None` for entity own items.
    pub origin_id: Option<i64>,
    /// Entity-specific override name.
    pub name: Option<String>,
    pub created_at: i64,
}

impl EntityWorkshopItem {
    /// The API form of a stored link: the same fields.
    pub fn from(db: EntityWorkshopItemDb) -> (r: EntityWorkshopItem)
        ensures
            r.item_id == db.item_id,
            r.workshop_item_id == db.workshop_item_id,
            r.origin_id == db.origin_id,
            r.name == db.name,
            r.created_at == db.created_at,
    {
        EntityWorkshopItem {
            item_id: db.item_id,
            workshop_item_id: db.workshop_item_id,
            origin_id: db.origin_id,
            name: db.name,
            created_at: db.created_at,
        }
    }
}

/// The pattern a workshop item slug must match.
pub const ITEM_SLUG_PATTERN: &'static str = "^[a-z][a-z0-9-]*$";

/// A length between 3 and 100.
pub open spec fn name_length_ok(n: nat) -> bool {
    3 <= n <= 100
}

/// The failed checks of a new workshop item, in field order: the name and
/// the slug of 3 to 100 characters, the slug of the slug pattern, and a
/// description (when given) of at most 500 characters.
pub open spec fn new_workshop_item_errors(
    name: Seq<char>,
    slug: Seq<char>,
    description: Option<Seq<char>>,
) -> Seq<(Seq<char>, Seq<char>)> {
    (if !name_length_ok(name.len()) {
        seq![("name"@, "length"@)]
    } else {
        Seq::empty()
    }) + (if !name_length_ok(slug.len()) {
        seq![("slug"@, "length"@)]
    } else {
        Seq::empty()
    }) + (if !item_slug_text(slug) {
        seq![("slug"@, "regex"@)]
    } else {
        Seq::empty()
    }) + (if description matches Some(d) && d.len() > 500 {
        seq![("description"@, "length"@)]
    } else {
        Seq::empty()
    })
}

/// The failed checks of changes to a workshop item, in field order: a name
/// (when given) of 3 to 100 characters and a description (when given) of at
/// most 500 characters.
pub open spec fn patch_workshop_item_errors(
    name: Option<Seq<char>>,
    description: Option<Seq<char>>,
) -> Seq<(Seq<char>, Seq<char>)> {
    (if name matches Some(n) && !name_length_ok(n.len()) {
        seq![("name"@, "length"@)]
    } else {
        Seq::empty()
    }) + (if description matches Some(d) && d.len() > 500 {
        seq![("description"@, "length"@)]
    } else {
        Seq::empty()
    })
}

/// The view of an optional string slice.
pub open spec fn opt_str(o: Option<&str>) -> Option<Seq<char>> {
    match o {
        Some(s) => Some(s@),
        None => None,
    }
}

/// The outcome of a validation from its failed checks.
fn outcome_of(errors: Vec<FieldError>) -> (r: Result<(), ValidationErrors>)
    ensures
        errors@.len() == 0 <==> r is Ok,
        r matches Err(e) ==> e.errors@ == errors@,
{
    if errors.len() == 0 {
        Ok(())
    } else {
        Err(ValidationErrors { errors })
    }
}

/// Checks the fields of a new workshop item (its definition is not checked).
pub fn validate_new_workshop_item(name: &str, slug: &str, description: Option<&str>) -> (r: Result<
    (),
    ValidationErrors,
>)
    ensures
        r is Ok <==> new_workshop_item_errors(name@, slug@, opt_str(description)).len() == 0,
        r matches Err(e) ==> errors_view(e.errors@) == new_workshop_item_errors(
            name@,
            slug@,
            opt_str(description),
        ),
{
    let mut errors: Vec<FieldError> = Vec::new();
    let n = name.unicode_len();
    if n < 3 || n > 100 {
        errors.push(FieldError { field: "name", code: "length" });
    }
    let ghost e1 = errors@;
    let k = slug.unicode_len();
    if k < 3 || k > 100 {
        errors.push(FieldError { field: "slug", code: "length" });
    }
    let matched = match regex_is_match(ITEM_SLUG_PATTERN, slug) {
        Some(b) => b,
        None => false,
    };
    if !matched {
        errors.push(FieldError { field: "slug", code: "regex" });
    }
    let long = match description {
        Some(d) => d.unicode_len() > 500,
        None => false,
    };
    if long {
        errors.push(FieldError { field: "description", code: "length" });
    }
    assert(errors_view(errors@) =~= new_workshop_item_errors(name@, slug@, opt_str(description)));
    outcome_of(errors)
}

/// Checks the given fields of changes to a workshop item (the definition is not checked).
pub fn validate_patch_workshop_item(name: Option<&str>, description: Option<&str>) -> (r: Result<
    (),
    ValidationErrors,
>)
    ensures
        r is Ok <==> patch_workshop_item_errors(opt_str(name), opt_str(description)).len() == 0,
        r matches Err(e) ==> errors_view(e.errors@) == patch_workshop_item_errors(
            opt_str(name),
            opt_str(description),
        ),
{
    let mut errors: Vec<FieldError> = Vec::new();
    let bad_name = match name {
        Some(n) => {
            let k = n.unicode_len();
            k < 3 || k > 100
        },
        None => false,
    };
    if bad_name {
        errors.push(FieldError { field: "name", code: "length" });
    }
    let long = match description {
        Some(d) => d.unicode_len() > 500,
        None => false,
    };
    if long {
        errors.push(FieldError { field: "description", code: "length" });
    }
    assert(errors_view(errors@) =~= patch_workshop_item_errors(opt_str(name), opt_str(description)));
    outcome_of(errors)
}


/// An update of a workshop item fails on its description exactly when a
/// description is given and it is longer than 500 characters, whether or not
/// a name is given; and on its name exactly when a name is given and it is
/// shorter than 3 or longer than 100 characters.
pub proof fn law_patch_workshop_item_fields_are_checked(name: Option<Seq<char>>, description: Option<Seq<char>>)
    ensures
        patch_workshop_item_errors(name, description).contains(("description"@, "length"@)) <==> (
        description matches Some(d) && d.len() > 500),
        patch_workshop_item_errors(name, description).contains(("name"@, "length"@)) <==> (name matches Some(
            n,
        ) && !(3 <= n.len() <= 100)),
{
    lemma_field_names_differ();
    let a = if name matches Some(n) && !name_length_ok(n.len()) { seq![("name"@, "length"@)] } else { Seq::empty() };
    let b = if description matches Some(d) && d.len() > 500 { seq![("description"@, "length"@)] } else { Seq::empty() };
    assert(patch_workshop_item_errors(name, description) == a + b);
    let x = ("description"@, "length"@);
    let y = ("name"@, "length"@);
    lemma_concat_contains(a, b, x);
    lemma_concat_contains(a, b, y);
    lemma_single_contains(y, x);
    lemma_single_contains(x, x);
    lemma_single_contains(x, y);
    lemma_single_contains(y, y);
}

} // verus!
