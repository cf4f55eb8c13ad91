//! Package storage: the statements that read and write `package` rows, with
//! the values bound to them. Running them is the caller's part.
use vstd::prelude::*;
use vstd::string::StringExecFns;
use crate::common::crud::QueryLister;
use crate::db::listing::{visible_listing, visible_listing_binds, visible_listing_sql};
use crate::db::sql::{
    binds_view, build_set, joined, opt_text, opt_value, parts_view, selected, str_opt, SqlQuery,
    SqlValue, SqlValueView,
};
use crate::error::ModelError;
use crate::strings::{to_owned_string};

verus! {

/// Storage of packages.
pub struct PackageStore {}

impl PackageStore {
    /// Create a new store.
    pub fn new() -> (r: Self) {
        Self {  }
    }
}

/// A stored package row.
#[derive(Debug)]
pub struct PackageDb {
    pub id: i64,
    pub name: String,
    pub slug: String,
    pub description: Option<String>,
    pub icon: Option<String>,
    pub is_public: bool,
}

/// A package to insert.
#[derive(Debug)]
pub struct NewPackageDb<'d> {
    pub name: &'d str,
    pub slug: String,
    pub description: Option<&'d str>,
    pub icon: Option<&'d str>,
    pub is_public: bool,
}

/// Changes to a package: `None` leaves a column as it is; for `description`
/// and `icon`, `Some(None)` sets it to `NULL`. The slug never changes.
#[derive(Debug)]
pub struct PatchPackageDb<'d> {
    pub name: Option<&'d str>,
    pub description: Option<Option<&'d str>>,
    pub icon: Option<Option<&'d str>>,
    pub is_public: Option<bool>,
}

/// Inserting a package.
pub const PACKAGE_INSERT: &'static str = "INSERT INTO package (name, slug, description, icon, is_public) VALUES (?, ?, ?, ?, ?) RETURNING id, name, slug, description, icon, is_public";

/// The start of a package listing.
pub const PACKAGE_LIST_HEAD: &'static str = "SELECT p.id, p.name, p.slug, p.description, p.icon, p.is_public FROM package p";

/// Packages visible to a session address.
pub const PACKAGE_VISIBLE: &'static str = "(p.is_public = 1 OR EXISTS (SELECT 1 FROM package_access_roles pa WHERE pa.package_id = p.id AND pa.address = ?))";

/// Public packages.
pub const PACKAGE_PUBLIC: &'static str = "p.is_public = 1";

/// Packages whose name or description matches a pattern.
pub const PACKAGE_SEARCH: &'static str = "(p.name LIKE ? OR p.description LIKE ?)";

/// The start of the id list of a package listing.
pub const PACKAGE_IDS: &'static str = "p.id IN (";

/// The id test of a single package read.
pub const PACKAGE_BY_ID: &'static str = "p.id = ?";

/// The start of a package update.
pub const PACKAGE_UPDATE_HEAD: &'static str = "UPDATE package SET ";

/// The end of a package update.
pub const PACKAGE_UPDATE_TAIL: &'static str = " WHERE id = ? RETURNING id, name, slug, description, icon, is_public";

/// Deleting a package.
pub const PACKAGE_DELETE: &'static str = "DELETE FROM package WHERE id = ? RETURNING id, name, slug, description, icon, is_public";

/// The message of an update that changes nothing.
pub const NO_PACKAGE_FIELDS: &'static str = "No fields to update in package item";

/// The values of a package insert.
pub open spec fn package_insert_binds(item: NewPackageDb) -> Seq<SqlValueView> {
    seq![
        SqlValueView::Text(item.name@),
        SqlValueView::Text(item.slug@),
        opt_text(str_opt(item.description)),
        opt_text(str_opt(item.icon)),
        SqlValueView::Bool(item.is_public),
    ]
}

/// The statement of a single package read: visible to the address when one
/// is given, else public, and with the id.
pub open spec fn package_get_sql(access: Option<&str>) -> Seq<char> {
    PACKAGE_LIST_HEAD@ + " WHERE "@ + (if access is Some {
        PACKAGE_VISIBLE@
    } else {
        PACKAGE_PUBLIC@
    }) + " AND "@ + PACKAGE_BY_ID@
}

/// The `SET` fragments of a package update, each with whether its field is given.
pub open spec fn package_set_parts(item: PatchPackageDb) -> Seq<(bool, Seq<char>)> {
    seq![
        (item.name is Some, "name = ?"@),
        (item.description is Some, "description = ?"@),
        (item.icon is Some, "icon = ?"@),
        (item.is_public is Some, "is_public = ?"@),
    ]
}

/// No field of the update is given.
pub open spec fn package_patch_empty(item: PatchPackageDb) -> bool {
    item.name is None && item.description is None && item.icon is None && item.is_public is None
}

/// The statement of a package update that sets the given fields.
pub open spec fn package_update_sql(item: PatchPackageDb) -> Seq<char> {
    PACKAGE_UPDATE_HEAD@ + joined(selected(package_set_parts(item)), ", "@) + PACKAGE_UPDATE_TAIL@
}

/// The values of a package update: each given field in `SET` order, then the id.
pub open spec fn package_update_binds(id: i64, item: PatchPackageDb) -> Seq<SqlValueView> {
    (match item.name {
        Some(n) => seq![SqlValueView::Text(n@)],
        None => Seq::empty(),
    }) + (match item.description {
        Some(d) => seq![opt_text(str_opt(d))],
        None => Seq::empty(),
    }) + (match item.icon {
        Some(i) => seq![opt_text(str_opt(i))],
        None => Seq::empty(),
    }) + (match item.is_public {
        Some(b) => seq![SqlValueView::Bool(b)],
        None => Seq::empty(),
    }) + seq![SqlValueView::Int(id as int)]
}

impl PackageStore {
    /// Insert a new package, returning the stored row.
    pub fn add_item_query(&self, item: &NewPackageDb) -> (q: SqlQuery)
        ensures
            q.sql@ == PACKAGE_INSERT@,
            binds_view(q.binds@) == package_insert_binds(*item),
    {
        let mut binds: Vec<SqlValue> = Vec::new();
        binds.push(SqlValue::Text(to_owned_string(item.name)));
        binds.push(SqlValue::Text(item.slug.clone()));
        binds.push(opt_value(item.description));
        binds.push(opt_value(item.icon));
        binds.push(SqlValue::Bool(item.is_public));
        assert(binds_view(binds@) =~= package_insert_binds(*item));
        SqlQuery { sql: to_owned_string(PACKAGE_INSERT), binds }
    }

    /// Packages visible through the lister's filter: with a session address,
    /// the public packages and those the address holds a role on; without
    /// one, the public packages; narrowed by search and ids when given, and
    /// paged. Without a filter, every package, paged.
    pub fn get_items_query<'a, F>(&self, lister: &QueryLister<'a, F>) -> (q: SqlQuery)
        ensures
            q.sql@ == visible_listing_sql(
                PACKAGE_LIST_HEAD@,
                PACKAGE_VISIBLE@,
                PACKAGE_PUBLIC@,
                PACKAGE_SEARCH@,
                PACKAGE_IDS@,
                *lister,
            ),
            binds_view(q.binds@) == visible_listing_binds(*lister),
    {
        visible_listing(
            PACKAGE_LIST_HEAD,
            PACKAGE_VISIBLE,
            PACKAGE_PUBLIC,
            PACKAGE_SEARCH,
            PACKAGE_IDS,
            lister,
        )
    }

    /// One package by id: public, or one the address holds a role on when an
    /// address is given.
    pub fn get_item_query(&self, id: i64, access: Option<&str>) -> (q: SqlQuery)
        ensures
            q.sql@ == package_get_sql(access),
            binds_view(q.binds@) == (match access {
                Some(a) => seq![SqlValueView::Text(a@), SqlValueView::Int(id as int)],
                None => seq![SqlValueView::Int(id as int)],
            }),
    {
        let mut sql = to_owned_string(PACKAGE_LIST_HEAD);
        sql.append(" WHERE ");
        let mut binds: Vec<SqlValue> = Vec::new();
        match access {
            Some(a) => {
                sql.append(PACKAGE_VISIBLE);
                binds.push(SqlValue::Text(to_owned_string(a)));
            },
            None => {
                sql.append(PACKAGE_PUBLIC);
            },
        }
        sql.append(" AND ");
        sql.append(PACKAGE_BY_ID);
        binds.push(SqlValue::Int(id));
        assert(sql@ =~= package_get_sql(access));
        assert(binds_view(binds@) =~= (match access {
            Some(a) => seq![SqlValueView::Text(a@), SqlValueView::Int(id as int)],
            None => seq![SqlValueView::Int(id as int)],
        }));
        SqlQuery { sql, binds }
    }

    /// Update a package: set the given fields and return the row. With no
    /// field given the update is refused as a bad request.
    pub fn update_item_query(&self, id: i64, item: &PatchPackageDb) -> (r: Result<
        SqlQuery,
        ModelError,
    >)
        ensures
            package_patch_empty(*item) <==> r is Err,
            r matches Err(e) ==> e is BadRequest && e.msg() == NO_PACKAGE_FIELDS@,
            r matches Ok(q) ==> q.sql@ == package_update_sql(*item) && binds_view(q.binds@)
                == package_update_binds(id, *item),
    {
        if item.name.is_none() && item.description.is_none() && item.icon.is_none()
            && item.is_public.is_none() {
            return Err(ModelError::BadRequest(to_owned_string(NO_PACKAGE_FIELDS)));
        }
        let mut parts: Vec<(bool, &str)> = Vec::new();
        parts.push((item.name.is_some(), "name = ?"));
        parts.push((item.description.is_some(), "description = ?"));
        parts.push((item.icon.is_some(), "icon = ?"));
        parts.push((item.is_public.is_some(), "is_public = ?"));
        assert(parts_view(parts@) =~= package_set_parts(*item));
        let set = build_set(&parts);
        let mut sql = to_owned_string(PACKAGE_UPDATE_HEAD);
        sql.append(set.as_str());
        sql.append(PACKAGE_UPDATE_TAIL);
        let mut binds: Vec<SqlValue> = Vec::new();
        match item.name {
            Some(n) => binds.push(SqlValue::Text(to_owned_string(n))),
            None => {},
        }
        match item.description {
            Some(d) => binds.push(opt_value(d)),
            None => {},
        }
        match item.icon {
            Some(i) => binds.push(opt_value(i)),
            None => {},
        }
        match item.is_public {
            Some(b) => binds.push(SqlValue::Bool(b)),
            None => {},
        }
        binds.push(SqlValue::Int(id));
        assert(binds_view(binds@) =~= package_update_binds(id, *item));
        assert(sql@ =~= package_update_sql(*item));
        Ok(SqlQuery { sql, binds })
    }

    /// Delete a package by id, returning the removed row.
    pub fn delete_item_query(&self, id: i64) -> (q: SqlQuery)
        ensures
            q.sql@ == PACKAGE_DELETE@,
            binds_view(q.binds@) == seq![SqlValueView::Int(id as int)],
    {
        let mut binds: Vec<SqlValue> = Vec::new();
        binds.push(SqlValue::Int(id));
        assert(binds_view(binds@) =~= seq![SqlValueView::Int(id as int)]);
        SqlQuery { sql: to_owned_string(PACKAGE_DELETE), binds }
    }
}

} // verus!
