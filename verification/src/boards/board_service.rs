//! Board service: the API forms of a board, their validation and conversion
//! to and from storage, and the access rules of updates and deletes.
use vstd::prelude::*;
use crate::boards::board_store::{BoardDb, NewBoardDb, PatchBoardDb};
use crate::common::item_fields::{
    as_deref, as_deref_nested, errors_view, new_item_errors, opt_view, patch_item_errors,
    NewItemFields, PatchItemFields, ValidationErrors,
};
use crate::common::slug::{slug_for, spec_generate_slug};
use crate::db::sql::str_opt;
use crate::common::access::{ROLE_MANAGE, ROLE_OWNER};
use crate::error::ModelError;
use crate::strings::to_owned_string;

verus! {

/// API representation of a board.
#[derive(Debug)]
pub struct Board {
    pub id: i64,
    pub name: String,
    pub slug: String,
    pub description: Option<String>,
    pub icon: Option<String>,
    pub is_public: bool,
}

/// A board to create.
#[derive(Debug)]
pub struct NewBoardItem {
    pub base: NewItemFields,
}

/// Changes to a board.
#[derive(Debug)]
pub struct PatchBoardItem {
    pub base: PatchItemFields,
}

impl NewBoardItem {
    /// Checks the fields (see `NewItemFields::validate`).
    pub fn validate(&self) -> (r: Result<(), ValidationErrors>)
        ensures
            r is Ok <==> new_item_errors(self.base).len() == 0,
            r matches Err(e) ==> errors_view(e.errors@) == new_item_errors(self.base),
    {
        self.base.validate()
    }
}

impl PatchBoardItem {
    /// Checks the given fields (see `PatchItemFields::validate`).
    pub fn validate(&self) -> (r: Result<(), ValidationErrors>)
        ensures
            r is Ok <==> patch_item_errors(self.base).len() == 0,
            r matches Err(e) ==> errors_view(e.errors@) == patch_item_errors(self.base),
    {
        self.base.validate()
    }
}

impl<'a> NewBoardDb<'a> {
    /// The row of a new board: its slug is the chosen one or is generated from
    /// the name, and it is private unless asked otherwise.
    pub fn from(item: &'a NewBoardItem) -> (r: NewBoardDb<'a>)
        ensures
            r.name@ == item.base.name@,
            r.slug@ == (match item.base.slug {
                Some(c) => c@,
                None => spec_generate_slug(item.base.name@),
            }),
            str_opt(r.description) == opt_view(item.base.description),
            str_opt(r.icon) == opt_view(item.base.icon),
            r.is_public == (match item.base.is_public {
                Some(b) => b,
                None => false,
            }),
    {
        let slug = slug_for(as_deref(&item.base.slug), item.base.name.as_str());
        NewBoardDb {
            name: item.base.name.as_str(),
            slug,
            description: as_deref(&item.base.description),
            icon: as_deref(&item.base.icon),
            is_public: match item.base.is_public {
                Some(b) => b,
                None => false,
            },
        }
    }
}

impl<'a> PatchBoardDb<'a> {
    /// The changes of a board row, field for field.
    pub fn from(item: &'a PatchBoardItem) -> (r: PatchBoardDb<'a>)
        ensures
            str_opt(r.name) == opt_view(item.base.name),
            (r.description is Some <==> item.base.description is Some),
            r.description matches Some(d) ==> str_opt(d) == opt_view(item.base.description.unwrap()),
            (r.icon is Some <==> item.base.icon is Some),
            r.icon matches Some(i) ==> str_opt(i) == opt_view(item.base.icon.unwrap()),
            r.is_public == item.base.is_public,
    {
        PatchBoardDb {
            name: as_deref(&item.base.name),
            description: as_deref_nested(&item.base.description),
            icon: as_deref_nested(&item.base.icon),
            is_public: item.base.is_public,
        }
    }
}

impl Board {
    /// The API form of a stored board: the same fields.
    pub fn from(item: BoardDb) -> (r: Board)
        ensures
            r.id == item.id,
            r.name == item.name,
            r.slug == item.slug,
            r.description == item.description,
            r.icon == item.icon,
            r.is_public == item.is_public,
    {
        Board {
            id: item.id,
            name: item.name,
            slug: item.slug,
            description: item.description,
            icon: item.icon,
            is_public: item.is_public,
        }
    }
}

/// The message when an update is not allowed.
pub const UPDATE_FORBIDDEN: &'static str = "You are not allowed to update this board";

/// The message when a delete is not allowed.
pub const DELETE_FORBIDDEN: &'static str = "You are not allowed to delete this board";

/// The service's update rule, given how many of the `update_roles` the
/// session holds on the board: forbidden when none.
pub fn check_update_access(roles_found: usize) -> (r: Result<(), ModelError>)
    ensures
        roles_found == 0 <==> r is Err,
        r matches Err(e) ==> e is Forbidden && e.msg() == UPDATE_FORBIDDEN@,
{
    if roles_found == 0 {
        Err(ModelError::Forbidden(to_owned_string(UPDATE_FORBIDDEN)))
    } else {
        Ok(())
    }
}

/// The service's delete rule, given how many of the `delete_roles` the
/// session holds on the board: forbidden when none.
pub fn check_delete_access(roles_found: usize) -> (r: Result<(), ModelError>)
    ensures
        roles_found == 0 <==> r is Err,
        r matches Err(e) ==> e is Forbidden && e.msg() == DELETE_FORBIDDEN@,
{
    if roles_found == 0 {
        Err(ModelError::Forbidden(to_owned_string(DELETE_FORBIDDEN)))
    } else {
        Ok(())
    }
}

/// The roles that may update a board: `owner` and `manage`.
pub fn update_roles() -> (r: Vec<&'static str>)
    ensures
        r@.len() == 2,
        r@[0]@ == ROLE_OWNER@,
        r@[1]@ == ROLE_MANAGE@,
{
    let mut r: Vec<&'static str> = Vec::new();
    r.push(ROLE_OWNER);
    r.push(ROLE_MANAGE);
    r
}

/// The roles that may delete a board: `owner` and `manage`.
pub fn delete_roles() -> (r: Vec<&'static str>)
    ensures
        r@.len() == 2,
        r@[0]@ == ROLE_OWNER@,
        r@[1]@ == ROLE_MANAGE@,
{
    let mut r: Vec<&'static str> = Vec::new();
    r.push(ROLE_OWNER);
    r.push(ROLE_MANAGE);
    r
}

} // verus!
