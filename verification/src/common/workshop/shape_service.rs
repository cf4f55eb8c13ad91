//! Requests that add a shape to a package or rename it there.
use vstd::prelude::*;
use vstd::string::StrSliceExecFns;
use crate::common::item_fields::{opt_view, FieldError, ValidationErrors};

verus! {

/// Most characters in a display name of a shape in a package.
pub const SHAPE_NAME_MAX: usize = 100;

/// Request model for adding a shape to a package.
#[derive(Debug)]
pub struct AddShapeToPackageItem {
    pub shape_id: i32,
    /// Optional display name override.
    pub name: Option<String>,
}

/// Request model for updating a package-shape association.
#[derive(Debug)]
pub struct UpdatePackageShapeItem {
    pub name: Option<String>,
}

/// A display name, when given, of at most 100 characters.
pub open spec fn shape_name_ok(name: Option<Seq<char>>) -> bool {
    name matches Some(n) ==> n.len() <= SHAPE_NAME_MAX
}

/// Checks an optional display name: at most 100 characters.
fn validate_shape_name(name: &Option<String>) -> (r: Result<(), ValidationErrors>)
    ensures
        r is Ok <==> shape_name_ok(opt_view(*name)),
        r matches Err(e) ==> e.errors@.len() == 1 && e.errors@[0].field@ == "name"@
            && e.errors@[0].code@ == "length"@,
{
    let long = match name {
        Some(n) => n.as_str().unicode_len() > SHAPE_NAME_MAX,
        None => false,
    };
    if long {
        let mut errors: Vec<FieldError> = Vec::new();
        errors.push(FieldError { field: "name", code: "length" });
        Err(ValidationErrors { errors })
    } else {
        Ok(())
    }
}

impl AddShapeToPackageItem {
    /// Checks the display name, when given: at most 100 characters.
    pub fn validate(&self) -> (r: Result<(), ValidationErrors>)
        ensures
            r is Ok <==> shape_name_ok(opt_view(self.name)),
            r matches Err(e) ==> e.errors@.len() == 1 && e.errors@[0].field@ == "name"@
                && e.errors@[0].code@ == "length"@,
    {
        validate_shape_name(&self.name)
    }
}

impl UpdatePackageShapeItem {
    /// Checks the display name, when given: at most 100 characters.
    pub fn validate(&self) -> (r: Result<(), ValidationErrors>)
        ensures
            r is Ok <==> shape_name_ok(opt_view(self.name)),
            r matches Err(e) ==> e.errors@.len() == 1 && e.errors@[0].field@ == "name"@
                && e.errors@[0].code@ == "length"@,
    {
        validate_shape_name(&self.name)
    }
}

} // verus!
