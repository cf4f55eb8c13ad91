//! Board storage: the statements that read and write `board` rows, with the
//! values bound to them. Running them is the caller's part.
use vstd::prelude::*;
use vstd::string::StringExecFns;
use crate::common::crud::QueryLister;
use crate::db::listing::{visible_listing, visible_listing_binds, visible_listing_sql};
use crate::db::sql::{
    binds_view, build_set, joined, opt_text, opt_value, parts_view, selected, str_opt, SqlQuery,
    SqlValue, SqlValueView,
};
use crate::strings::{to_owned_string};

verus! {

/// Storage of boards.
pub struct BoardStore {}

impl BoardStore {
    /// Create a new store.
    pub fn new() -> (r: Self) {
        Self {  }
    }
}

/// A stored board row.
#[derive(Debug)]
pub struct BoardDb {
    pub id: i64,
    pub name: String,
    pub slug: String,
    pub description: Option<String>,
    pub icon: Option<String>,
    pub is_public: bool,
}

/// A board to insert.
#[derive(Debug)]
pub struct NewBoardDb<'a> {
    pub name: &'a str,
    pub slug: String,
    pub description: Option<&'a str>,
    pub icon: Option<&'a str>,
    pub is_public: bool,
}

/// Changes to a board: `None` leaves a column as it is; for `description` and
/// `icon`, `Some(None)` sets it to `NULL`.
#[derive(Debug)]
pub struct PatchBoardDb<'a> {
    pub name: Option<&'a str>,
    pub description: Option<Option<&'a str>>,
    pub icon: Option<Option<&'a str>>,
    pub is_public: Option<bool>,
}

/// Inserting a board.
pub const BOARD_INSERT: &'static str = "INSERT INTO board (name, slug, description, icon, is_public) VALUES (?, ?, ?, ?, ?) RETURNING id, name, slug, description, icon, is_public";

/// The start of a board listing.
pub const BOARD_LIST_HEAD: &'static str = "SELECT b.id, b.name, b.slug, b.description, b.icon, b.is_public FROM board b";

/// Boards visible to a session address.
pub const BOARD_VISIBLE: &'static str = "(b.is_public = 1 OR EXISTS (SELECT 1 FROM board_access_roles bar WHERE bar.board_id = b.id AND bar.address = ?))";

/// Public boards.
pub const BOARD_PUBLIC: &'static str = "b.is_public = 1";

/// Boards whose name or description matches a pattern.
pub const BOARD_SEARCH: &'static str = "(b.name LIKE ? OR b.description LIKE ?)";

/// The start of the id list of a board listing.
pub const BOARD_IDS: &'static str = "b.id IN (";

/// One board, public or one the address holds a role on.
pub const BOARD_GET_WITH_ACCESS: &'static str = "SELECT b.id, b.name, b.slug, b.description, b.icon, b.is_public
                 FROM board b
                 LEFT JOIN board_access_roles bar ON b.id = bar.board_id
                 WHERE b.id = ? AND (b.is_public = 1 OR (bar.address = ? AND bar.role IN ('owner', 'manage', 'edit', 'view')))";

/// One public board.
pub const BOARD_GET_PUBLIC: &'static str = "SELECT id, name, slug, description, icon, is_public FROM board WHERE id = ? AND is_public = 1";

/// One board, whatever its visibility.
pub const BOARD_GET_BY_ID: &'static str = "SELECT id, name, slug, description, icon, is_public FROM board WHERE id = ?";

/// The start of a board update.
pub const BOARD_UPDATE_HEAD: &'static str = "UPDATE board SET ";

/// The end of a board update.
pub const BOARD_UPDATE_TAIL: &'static str = " WHERE id = ? RETURNING id, name, slug, description, icon, is_public";

/// Deleting a board.
pub const BOARD_DELETE: &'static str = "DELETE FROM board WHERE id = ? RETURNING id, name, description, icon, is_public, slug";

/// The values of a board insert.
pub open spec fn board_insert_binds(item: NewBoardDb) -> Seq<SqlValueView> {
    seq![
        SqlValueView::Text(item.name@),
        SqlValueView::Text(item.slug@),
        opt_text(str_opt(item.description)),
        opt_text(str_opt(item.icon)),
        SqlValueView::Bool(item.is_public),
    ]
}

/// The `SET` fragments of a board update, each with whether its field is given.
pub open spec fn board_set_parts(item: PatchBoardDb) -> Seq<(bool, Seq<char>)> {
    seq![
        (item.name is Some, "name = ?"@),
        (item.description is Some, "description = ?"@),
        (item.icon is Some, "icon = ?"@),
        (item.is_public is Some, "is_public = ?"@),
    ]
}

/// No field of the update is given.
pub open spec fn board_patch_empty(item: PatchBoardDb) -> bool {
    item.name is None && item.description is None && item.icon is None && item.is_public is None
}

/// The statement of a board update: the fetch of the row when no field is
/// given, else an `UPDATE` that sets the given fields.
pub open spec fn board_update_sql(item: PatchBoardDb) -> Seq<char> {
    if board_patch_empty(item) {
        BOARD_GET_BY_ID@
    } else {
        BOARD_UPDATE_HEAD@ + joined(selected(board_set_parts(item)), ", "@) + BOARD_UPDATE_TAIL@
    }
}

/// The values of a board update: each given field in `SET` order, then the id.
pub open spec fn board_update_binds(id: i64, item: PatchBoardDb) -> Seq<SqlValueView> {
    (match item.name {
        Some(n) => seq![SqlValueView::Text(n@)],
        None => Seq::empty(),
    }) + (match item.description {
        Some(d) => seq![opt_text(str_opt(d))],
        None => Seq::empty(),
    }) + (match item.icon {
        Some(i) => seq![opt_text(str_opt(i))],
        None => Seq::empty(),
    }) + (match item.is_public {
        Some(b) => seq![SqlValueView::Bool(b)],
        None => Seq::empty(),
    }) + seq![SqlValueView::Int(id as int)]
}

impl BoardStore {
    /// Insert a new board, returning the stored row.
    pub fn add_item_query(&self, item: &NewBoardDb) -> (q: SqlQuery)
        ensures
            q.sql@ == BOARD_INSERT@,
            binds_view(q.binds@) == board_insert_binds(*item),
    {
        let mut binds: Vec<SqlValue> = Vec::new();
        binds.push(SqlValue::Text(to_owned_string(item.name)));
        binds.push(SqlValue::Text(item.slug.clone()));
        binds.push(opt_value(item.description));
        binds.push(opt_value(item.icon));
        binds.push(SqlValue::Bool(item.is_public));
        assert(binds_view(binds@) =~= board_insert_binds(*item));
        SqlQuery { sql: to_owned_string(BOARD_INSERT), binds }
    }

    /// Boards visible through the lister's filter: with a session address,
    /// the public boards and those the address holds a role on; without one,
    /// the public boards; narrowed by search and ids when given, and paged.
    /// Without a filter, every board, paged.
    pub fn get_items_query<'a, F>(&self, lister: &QueryLister<'a, F>) -> (q: SqlQuery)
        ensures
            q.sql@ == visible_listing_sql(
                BOARD_LIST_HEAD@,
                BOARD_VISIBLE@,
                BOARD_PUBLIC@,
                BOARD_SEARCH@,
                BOARD_IDS@,
                *lister,
            ),
            binds_view(q.binds@) == visible_listing_binds(*lister),
    {
        visible_listing(BOARD_LIST_HEAD, BOARD_VISIBLE, BOARD_PUBLIC, BOARD_SEARCH, BOARD_IDS, lister)
    }

    /// One board by id: public, or one the address holds a role on when an
    /// address is given.
    pub fn get_item_query(&self, item_id: i64, access: Option<&str>) -> (q: SqlQuery)
        ensures
            q.sql@ == (if access is Some {
                BOARD_GET_WITH_ACCESS@
            } else {
                BOARD_GET_PUBLIC@
            }),
            binds_view(q.binds@) == (match access {
                Some(a) => seq![SqlValueView::Int(item_id as int), SqlValueView::Text(a@)],
                None => seq![SqlValueView::Int(item_id as int)],
            }),
    {
        let mut binds: Vec<SqlValue> = Vec::new();
        binds.push(SqlValue::Int(item_id));
        match access {
            Some(address) => {
                binds.push(SqlValue::Text(to_owned_string(address)));
                assert(binds_view(binds@) =~= seq![SqlValueView::Int(item_id as int), SqlValueView::Text(address@)]);
                SqlQuery { sql: to_owned_string(BOARD_GET_WITH_ACCESS), binds }
            },
            None => {
                assert(binds_view(binds@) =~= seq![SqlValueView::Int(item_id as int)]);
                SqlQuery { sql: to_owned_string(BOARD_GET_PUBLIC), binds }
            },
        }
    }

    /// Update a board: set the given fields and return the row; with no field
    /// given, fetch the row as it is.
    pub fn update_item_query(&self, id: i64, item: &PatchBoardDb) -> (q: SqlQuery)
        ensures
            q.sql@ == board_update_sql(*item),
            binds_view(q.binds@) == (if board_patch_empty(*item) {
                seq![SqlValueView::Int(id as int)]
            } else {
                board_update_binds(id, *item)
            }),
    {
        if item.name.is_none() && item.description.is_none() && item.icon.is_none()
            && item.is_public.is_none() {
            let mut binds: Vec<SqlValue> = Vec::new();
            binds.push(SqlValue::Int(id));
            assert(binds_view(binds@) =~= seq![SqlValueView::Int(id as int)]);
            return SqlQuery { sql: to_owned_string(BOARD_GET_BY_ID), binds };
        }
        let mut parts: Vec<(bool, &str)> = Vec::new();
        parts.push((item.name.is_some(), "name = ?"));
        parts.push((item.description.is_some(), "description = ?"));
        parts.push((item.icon.is_some(), "icon = ?"));
        parts.push((item.is_public.is_some(), "is_public = ?"));
        assert(parts_view(parts@) =~= board_set_parts(*item));
        let set = build_set(&parts);
        let mut sql = to_owned_string(BOARD_UPDATE_HEAD);
        sql.append(set.as_str());
        sql.append(BOARD_UPDATE_TAIL);
        let mut binds: Vec<SqlValue> = Vec::new();
        match item.name {
            Some(n) => binds.push(SqlValue::Text(to_owned_string(n))),
            None => {},
        }
        match item.description {
            Some(d) => binds.push(opt_value(d)),
            None => {},
        }
        match item.icon {
            Some(i) => binds.push(opt_value(i)),
            None => {},
        }
        match item.is_public {
            Some(b) => binds.push(SqlValue::Bool(b)),
            None => {},
        }
        binds.push(SqlValue::Int(id));
        assert(binds_view(binds@) =~= board_update_binds(id, *item));
        assert(sql@ =~= board_update_sql(*item));
        SqlQuery { sql, binds }
    }

    /// Delete a board by id, returning the removed row.
    pub fn delete_item_query(&self, id: i64) -> (q: SqlQuery)
        ensures
            q.sql@ == BOARD_DELETE@,
            binds_view(q.binds@) == seq![SqlValueView::Int(id as int)],
    {
        let mut binds: Vec<SqlValue> = Vec::new();
        binds.push(SqlValue::Int(id));
        assert(binds_view(binds@) =~= seq![SqlValueView::Int(id as int)]);
        SqlQuery { sql: to_owned_string(BOARD_DELETE), binds }
    }
}

} // verus!
