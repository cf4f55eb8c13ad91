//! Workshop items (shapes, lines, rules, layouts): the statements that read
//! and write their rows and their links to packages and boards, with the
//! values bound to them. Running them is the caller's part; the current time
//! is the caller's too, and is handed in as `now`.
use vstd::prelude::*;
use vstd::string::StringExecFns;
use vstd::string::StrSliceExecFns;
use crate::common::crud::QueryLister;
use crate::db::listing::{paging_sql, push_paging};
use crate::db::sql::{
    binds_view, build_set, joined, joined_ids, like_pattern, like_text, opt_int, opt_int_value,
    opt_text, opt_value, parts_view, push_joined_ids, selected, str_opt, SqlQuery, SqlValue,
    SqlValueView,
};
use crate::error::ModelError;
use crate::strings::{str_eq, to_owned_string};

verus! {

/// Workshop item kinds.
#[derive(Debug, Clone, Copy, PartialEq, Eq, Structural)]
pub enum WorkshopItemType {
    Shape,
    Line,
    Rule,
    Layout,
}

/// The table of a kind of workshop item.
pub open spec fn spec_table_name(t: WorkshopItemType) -> Seq<char> {
    match t {
        WorkshopItemType::Shape => "shape"@,
        WorkshopItemType::Line => "line"@,
        WorkshopItemType::Rule => "rule"@,
        WorkshopItemType::Layout => "layout"@,
    }
}

/// The column of a kind of workshop item's id in linking tables.
pub open spec fn spec_id_column_name(t: WorkshopItemType) -> Seq<char> {
    match t {
        WorkshopItemType::Shape => "shape_id"@,
        WorkshopItemType::Line => "line_id"@,
        WorkshopItemType::Rule => "rule_id"@,
        WorkshopItemType::Layout => "layout_id"@,
    }
}

impl WorkshopItemType {
    /// Returns the table name for this workshop item type.
    pub fn table_name(&self) -> (r: &'static str)
        ensures
            r@ == spec_table_name(*self),
    {
        match self {
            WorkshopItemType::Shape => "shape",
            WorkshopItemType::Line => "line",
            WorkshopItemType::Rule => "rule",
            WorkshopItemType::Layout => "layout",
        }
    }

    /// Returns the column name for the workshop item ID in linking tables.
    pub fn id_column_name(&self) -> (r: &'static str)
        ensures
            r@ == spec_id_column_name(*self),
    {
        match self {
            WorkshopItemType::Shape => "shape_id",
            WorkshopItemType::Line => "line_id",
            WorkshopItemType::Rule => "rule_id",
            WorkshopItemType::Layout => "layout_id",
        }
    }
}

/// A workshop item to insert; the definition is JSON text.
#[derive(Debug)]
pub struct NewWorkshopItemDb<'a> {
    pub name: &'a str,
    pub slug: &'a str,
    pub description: Option<&'a str>,
    pub definition: &'a str,
}

/// Changes to a workshop item: `None` leaves a column as it is; for
/// `description`, `Some(None)` sets it to `NULL`. The definition is JSON text.
#[derive(Debug)]
pub struct PatchWorkshopItemDb<'a> {
    pub name: Option<&'a str>,
    pub description: Option<Option<&'a str>>,
    pub definition: Option<&'a str>,
}

/// Database model for entity-workshop-item association.
#[derive(Debug)]
pub struct EntityWorkshopItemDb {
    /// Entity id (package or board).
    pub item_id: i64,
    /// Workshop item id.
    pub workshop_item_id: i64,
    /// Package id for board imports, `None` for package own items.
    pub origin_id: Option<i64>,
    /// Board-specific override name.
    pub name: Option<String>,
    pub created_at: i64,
}

/// Universal storage layer for workshop items, parametrized by item type.
pub struct WorkshopStore {
    item_type: WorkshopItemType,
}

impl View for WorkshopStore {
    type V = WorkshopItemType;

    /// The kind of items stored.
    closed spec fn view(&self) -> WorkshopItemType {
        self.item_type
    }
}

/// The columns of a workshop item row.
pub const ITEM_COLUMNS: &'static str = "id, name, slug, description, definition, created_at, updated_at";

/// The columns of a link row.
pub const LINK_COLUMNS_HEAD: &'static str = " RETURNING item_id as item_id, ";

/// The linking table of an entity table and an item table.
pub open spec fn link_table(entity: Seq<char>, table: Seq<char>) -> Seq<char> {
    entity + "_"@ + table
}

/// The entity id column of a linking table.
pub open spec fn entity_id_column(entity: Seq<char>) -> Seq<char> {
    entity + "_id"@
}

/// The statement that links an item to an entity; board links carry a name.
pub open spec fn link_sql(t: WorkshopItemType, entity: Seq<char>) -> Seq<char> {
    let lt = link_table(entity, spec_table_name(t));
    let ic = entity_id_column(entity);
    let wc = spec_id_column_name(t);
    if entity == "board"@ {
        "INSERT INTO "@ + lt + " ("@ + ic + ", "@ + wc
            + ", origin_id, name, created_at) VALUES (?1, ?2, ?3, ?4, ?5)"@ + LINK_COLUMNS_HEAD@ + wc
            + " as workshop_item_id, origin_id, name, created_at"@
    } else {
        "INSERT INTO "@ + lt + " ("@ + ic + ", "@ + wc
            + ", origin_id, created_at) VALUES (?1, ?2, ?3, ?4)"@ + LINK_COLUMNS_HEAD@ + wc
            + " as workshop_item_id, origin_id, NULL as name, created_at"@
    }
}

/// The values of a link: entity, item, origin, the name for boards, the time.
pub open spec fn link_binds(
    entity: Seq<char>,
    entity_id: i64,
    workshop_item_id: i64,
    origin_id: Option<i64>,
    name_override: Option<Seq<char>>,
    now: i64,
) -> Seq<SqlValueView> {
    seq![
        SqlValueView::Int(entity_id as int),
        SqlValueView::Int(workshop_item_id as int),
        opt_int(origin_id),
    ] + (if entity == "board"@ {
        seq![opt_text(name_override)]
    } else {
        Seq::empty()
    }) + seq![SqlValueView::Int(now as int)]
}

/// The statement that unlinks an item from an entity.
pub open spec fn unlink_sql(t: WorkshopItemType, entity: Seq<char>) -> Seq<char> {
    let wc = spec_id_column_name(t);
    "DELETE FROM "@ + link_table(entity, spec_table_name(t)) + " WHERE "@ + entity_id_column(entity)
        + " = ?1 AND "@ + wc + " = ?2 AND origin_id IS ?3"@ + LINK_COLUMNS_HEAD@ + wc
        + " as workshop_item_id, origin_id, name, created_at"@
}

/// The alias of an item table in listings: its first letter.
pub open spec fn table_alias(t: WorkshopItemType) -> Seq<char> {
    spec_table_name(t).subrange(0, 1)
}

/// The column list of an item table under an alias.
pub open spec fn aliased_columns(a: Seq<char>) -> Seq<char> {
    a + ".id, "@ + a + ".name, "@ + a + ".slug, "@ + a + ".description, "@ + a + ".definition, "@
        + a + ".created_at, "@ + a + ".updated_at"@
}

/// The tests of a listing of items, under an alias: a name search when
/// searching, an id list when a non-empty one is given.
pub open spec fn item_filter_parts<'a, F>(a: Seq<char>, l: QueryLister<'a, F>) -> Seq<Seq<char>> {
    match l.filter {
        Some(f) => (if f.search is Some {
            seq![a + ".name LIKE ?"@]
        } else {
            Seq::empty()
        }) + match f.ids {
            Some(ids) => if ids@.len() > 0 {
                seq![a + ".id IN ("@ + joined_ids(ids@, ","@) + ")"@]
            } else {
                Seq::empty()
            },
            None => Seq::empty(),
        },
        None => Seq::empty(),
    }
}

/// The search value of an item listing, when searching.
pub open spec fn item_search_binds<'a, F>(l: QueryLister<'a, F>) -> Seq<SqlValueView> {
    match l.filter {
        Some(f) => match f.search {
            Some(s) => seq![SqlValueView::Text(like_pattern(s@))],
            None => Seq::empty(),
        },
        None => Seq::empty(),
    }
}

/// The listing of a kind of item: its columns under its alias, its tests
/// after `" WHERE "` when there are any, then the paging.
pub open spec fn items_sql<'a, F>(t: WorkshopItemType, l: QueryLister<'a, F>) -> Seq<char> {
    let a = table_alias(t);
    let parts = item_filter_parts(a, l);
    "SELECT "@ + aliased_columns(a) + " FROM "@ + spec_table_name(t) + " "@ + a + (if parts.len()
        > 0 {
        " WHERE "@ + joined(parts, " AND "@)
    } else {
        Seq::empty()
    }) + paging_sql(l.pager)
}

/// The listing of the items linked to an entity.
pub open spec fn entity_items_sql<'a, F>(
    t: WorkshopItemType,
    entity: Seq<char>,
    l: QueryLister<'a, F>,
) -> Seq<char> {
    "SELECT "@ + aliased_columns("i"@) + " FROM "@ + spec_table_name(t) + " i JOIN "@ + link_table(
        entity,
        spec_table_name(t),
    ) + " l ON i.id = l."@ + spec_id_column_name(t) + " WHERE "@ + joined(
        seq!["l."@ + entity_id_column(entity) + " = ?"@] + item_filter_parts("i"@, l),
        " AND "@,
    ) + paging_sql(l.pager)
}

/// The statement that reads one item by id.
pub open spec fn item_sql(t: WorkshopItemType) -> Seq<char> {
    let a = table_alias(t);
    "SELECT "@ + aliased_columns(a) + " FROM "@ + spec_table_name(t) + " "@ + a + " WHERE "@ + a
        + ".id = ?1"@
}

/// The `SET` fragments of an item update, each with whether its field is given.
pub open spec fn item_set_parts(p: PatchWorkshopItemDb) -> Seq<(bool, Seq<char>)> {
    seq![
        (p.name is Some, "name = ?"@),
        (p.description is Some, "description = ?"@),
        (p.definition is Some, "definition = ?"@),
        (true, "updated_at = ?"@),
    ]
}

/// The values of an item update: each given field in `SET` order, the time, the id.
pub open spec fn item_update_binds(id: i64, p: PatchWorkshopItemDb, now: i64) -> Seq<SqlValueView> {
    (match p.name {
        Some(n) => seq![SqlValueView::Text(n@)],
        None => Seq::empty(),
    }) + (match p.description {
        Some(d) => seq![opt_text(str_opt(d))],
        None => Seq::empty(),
    }) + (match p.definition {
        Some(d) => seq![SqlValueView::Text(d@)],
        None => Seq::empty(),
    }) + seq![SqlValueView::Int(now as int), SqlValueView::Int(id as int)]
}

/// The message of an update that changes nothing.
pub const NO_ITEM_FIELDS: &'static str = "No fields to update";

impl WorkshopStore {
    /// Create a new store for the specified workshop item type.
    pub fn new(item_type: WorkshopItemType) -> (r: Self)
        ensures
            r@ == item_type,
    {
        Self { item_type }
    }

    /// Get the table name for this store's workshop item type.
    pub fn table_name(&self) -> (r: &'static str)
        ensures
            r@ == spec_table_name(self@),
    {
        self.item_type.table_name()
    }

    /// Get the ID column name for this store's workshop item type in linking tables.
    pub fn id_column_name(&self) -> (r: &'static str)
        ensures
            r@ == spec_id_column_name(self@),
    {
        self.item_type.id_column_name()
    }

    /// Link a workshop item to an entity (`"package"` or `"board"`) at time
    /// `now`; board links also store the override name.
    pub fn link_item_to_entity_query(
        &self,
        entity_table: &str,
        entity_id: i64,
        workshop_item_id: i64,
        origin_id: Option<i64>,
        name_override: Option<&str>,
        now: i64,
    ) -> (q: SqlQuery)
        ensures
            q.sql@ == link_sql(self@, entity_table@),
            binds_view(q.binds@) == link_binds(
                entity_table@,
                entity_id,
                workshop_item_id,
                origin_id,
                str_opt(name_override),
                now,
            ),
    {
        let table = self.table_name();
        let wc = self.id_column_name();
        let has_name_col = str_eq(entity_table, "board");
        let mut sql = to_owned_string("INSERT INTO ");
        sql.append(entity_table);
        sql.append("_");
        sql.append(table);
        sql.append(" (");
        sql.append(entity_table);
        sql.append("_id");
        sql.append(", ");
        sql.append(wc);
        if has_name_col {
            sql.append(", origin_id, name, created_at) VALUES (?1, ?2, ?3, ?4, ?5)");
        } else {
            sql.append(", origin_id, created_at) VALUES (?1, ?2, ?3, ?4)");
        }
        sql.append(LINK_COLUMNS_HEAD);
        sql.append(wc);
        if has_name_col {
            sql.append(" as workshop_item_id, origin_id, name, created_at");
        } else {
            sql.append(" as workshop_item_id, origin_id, NULL as name, created_at");
        }
        let mut binds: Vec<SqlValue> = Vec::new();
        binds.push(SqlValue::Int(entity_id));
        binds.push(SqlValue::Int(workshop_item_id));
        binds.push(opt_int_value(origin_id));
        if has_name_col {
            binds.push(opt_value(name_override));
        }
        binds.push(SqlValue::Int(now));
        assert(sql@ =~= link_sql(self@, entity_table@));
        assert(binds_view(binds@) =~= link_binds(
            entity_table@,
            entity_id,
            workshop_item_id,
            origin_id,
            str_opt(name_override),
            now,
        ));
        SqlQuery { sql, binds }
    }

    /// Unlink a workshop item from an entity.
    pub fn unlink_item_from_entity_query(
        &self,
        entity_table: &str,
        entity_id: i64,
        workshop_item_id: i64,
        origin_id: Option<i64>,
    ) -> (q: SqlQuery)
        ensures
            q.sql@ == unlink_sql(self@, entity_table@),
            binds_view(q.binds@) == seq![
                SqlValueView::Int(entity_id as int),
                SqlValueView::Int(workshop_item_id as int),
                opt_int(origin_id),
            ],
    {
        let table = self.table_name();
        let wc = self.id_column_name();
        let mut sql = to_owned_string("DELETE FROM ");
        sql.append(entity_table);
        sql.append("_");
        sql.append(table);
        sql.append(" WHERE ");
        sql.append(entity_table);
        sql.append("_id");
        sql.append(" = ?1 AND ");
        sql.append(wc);
        sql.append(" = ?2 AND origin_id IS ?3");
        sql.append(LINK_COLUMNS_HEAD);
        sql.append(wc);
        sql.append(" as workshop_item_id, origin_id, name, created_at");
        let mut binds: Vec<SqlValue> = Vec::new();
        binds.push(SqlValue::Int(entity_id));
        binds.push(SqlValue::Int(workshop_item_id));
        binds.push(opt_int_value(origin_id));
        assert(sql@ =~= unlink_sql(self@, entity_table@));
        assert(binds_view(binds@) =~= seq![
            SqlValueView::Int(entity_id as int),
            SqlValueView::Int(workshop_item_id as int),
            opt_int(origin_id),
        ]);
        SqlQuery { sql, binds }
    }
}

/// The tests of an item listing, under an alias.
fn item_filter_parts_of<'a, F>(a: &str, lister: &QueryLister<'a, F>) -> (r: Vec<String>)
    ensures
        r@.map_values(|s: String| s@) == item_filter_parts(a@, *lister),
{
    let mut parts: Vec<String> = Vec::new();
    match &lister.filter {
        Some(f) => {
            if f.search.is_some() {
                let mut p = to_owned_string(a);
                p.append(".name LIKE ?");
                parts.push(p);
            }
            match f.ids {
                Some(ids) => {
                    if ids.len() > 0 {
                        let mut p = to_owned_string(a);
                        p.append(".id IN (");
                        push_joined_ids(&mut p, ids, ",");
                        p.append(")");
                        parts.push(p);
                    }
                },
                None => {},
            }
        },
        None => {},
    }
    assert(parts@.map_values(|s: String| s@) =~= item_filter_parts(a@, *lister));
    parts
}

/// Appends texts separated by `sep`.
fn push_joined(s: &mut String, parts: &Vec<String>, sep: &str)
    ensures
        final(s)@ == old(s)@ + joined(parts@.map_values(|p: String| p@), sep@),
{
    let ghost start = s@;
    let ghost pv = parts@.map_values(|p: String| p@);
    let n = parts.len();
    for k in 0..n
        invariant
            n == parts@.len(),
            pv == parts@.map_values(|p: String| p@),
            s@ == start + joined(pv.take(k as int), sep@),
    {
        if k > 0 {
            s.append(sep);
        }
        s.append(parts[k].as_str());
        proof {
            let t = pv.take(k + 1);
            assert(t.drop_last() =~= pv.take(k as int));
            assert(t.last() == parts@[k as int]@);
            if k == 0 {
                assert(pv.take(0) =~= Seq::<Seq<char>>::empty());
            }
            assert(s@ =~= start + joined(t, sep@));
        }
    }
    assert(pv.take(n as int) =~= pv);
}

/// Appends the columns of an item table under an alias.
fn push_aliased_columns(s: &mut String, a: &str)
    ensures
        final(s)@ == old(s)@ + aliased_columns(a@),
{
    s.append(a);
    s.append(".id, ");
    s.append(a);
    s.append(".name, ");
    s.append(a);
    s.append(".slug, ");
    s.append(a);
    s.append(".description, ");
    s.append(a);
    s.append(".definition, ");
    s.append(a);
    s.append(".created_at, ");
    s.append(a);
    s.append(".updated_at");
    assert(s@ =~= old(s)@ + aliased_columns(a@));
}

/// The search value of an item listing.
fn item_search_values<'a, F>(lister: &QueryLister<'a, F>) -> (r: Vec<SqlValue>)
    ensures
        binds_view(r@) == item_search_binds(*lister),
{
    let mut binds: Vec<SqlValue> = Vec::new();
    match &lister.filter {
        Some(f) => match f.search {
            Some(s) => {
                binds.push(SqlValue::Text(like_text(s)));
            },
            None => {},
        },
        None => {},
    }
    assert(binds_view(binds@) =~= item_search_binds(*lister));
    binds
}

impl WorkshopStore {
    /// The alias of the item table in listings: its first letter.
    fn alias(&self) -> (r: &'static str)
        ensures
            r@ == table_alias(self@),
    {
        let table = self.table_name();
        proof {
            reveal_strlit("shape");
            reveal_strlit("line");
            reveal_strlit("rule");
            reveal_strlit("layout");
        }
        table.substring_char(0, 1)
    }

    /// List the items linked to an entity, narrowed by name search and ids
    /// when given, and paged.
    pub fn list_entity_items_query<'a, F>(
        &self,
        entity_table: &str,
        entity_id: i64,
        lister: &QueryLister<'a, F>,
    ) -> (q: SqlQuery)
        ensures
            q.sql@ == entity_items_sql(self@, entity_table@, *lister),
            binds_view(q.binds@) == seq![SqlValueView::Int(entity_id as int)] + item_search_binds(
                *lister,
            ),
    {
        let table = self.table_name();
        let wc = self.id_column_name();
        let mut first = to_owned_string("l.");
        first.append(entity_table);
        first.append("_id");
        first.append(" = ?");
        let ghost fv = first@;
        assert(fv =~= "l."@ + entity_id_column(entity_table@) + " = ?"@);
        let mut parts: Vec<String> = Vec::new();
        parts.push(first);
        let rest = item_filter_parts_of("i", lister);
        let ghost rv = rest@.map_values(|s: String| s@);
        let ghost p0 = parts@;
        let mut k: usize = 0;
        let m = rest.len();
        while k < m
            invariant
                m == rest@.len(),
                k <= m,
                parts@ == p0 + rest@.take(k as int),
            decreases m - k,
        {
            parts.push(rest[k].clone());
            assert(rest@.take(k + 1) =~= rest@.take(k as int).push(rest@[k as int]));
            k = k + 1;
        }
        assert(rest@.take(m as int) =~= rest@);
        let mut sql = to_owned_string("SELECT ");
        push_aliased_columns(&mut sql, "i");
        sql.append(" FROM ");
        sql.append(table);
        sql.append(" i JOIN ");
        sql.append(entity_table);
        sql.append("_");
        sql.append(table);
        sql.append(" l ON i.id = l.");
        sql.append(wc);
        sql.append(" WHERE ");
        push_joined(&mut sql, &parts, " AND ");
        push_paging(&mut sql, &lister.pager);
        proof {
            assert(parts@.len() == 1 + rest@.len());
            let pv = parts@.map_values(|p: String| p@);
            assert forall|j: int| 0 <= j < parts@.len() implies #[trigger] pv[j] == (seq![fv]
                + rv)[j] by {
                if j == 0 {
                    assert(parts@[0] == p0[0]);
                } else {
                    assert(parts@[j] == rest@[j - 1]);
                }
            }
            assert(parts@.map_values(|p: String| p@) =~= seq![fv] + rv);
            assert(parts@.map_values(|p: String| p@) =~= seq![
                "l."@ + entity_id_column(entity_table@) + " = ?"@,
            ] + item_filter_parts("i"@, *lister));
        }
        assert(sql@ =~= entity_items_sql(self@, entity_table@, *lister));
        let mut binds: Vec<SqlValue> = Vec::new();
        binds.push(SqlValue::Int(entity_id));
        let mut search = item_search_values(lister);
        binds.append(&mut search);
        assert(binds_view(binds@) =~= seq![SqlValueView::Int(entity_id as int)] + item_search_binds(
            *lister,
        ));
        SqlQuery { sql, binds }
    }

    /// Create a new workshop item at time `now`.
    pub fn add_item_query(&self, item: &NewWorkshopItemDb, now: i64) -> (q: SqlQuery)
        ensures
            q.sql@ == "INSERT INTO "@ + spec_table_name(self@)
                + " (name, slug, description, definition, created_at, updated_at) VALUES (?1, ?2, ?3, ?4, ?5, ?5) RETURNING "@
                + ITEM_COLUMNS@,
            binds_view(q.binds@) == seq![
                SqlValueView::Text(item.name@),
                SqlValueView::Text(item.slug@),
                opt_text(str_opt(item.description)),
                SqlValueView::Text(item.definition@),
                SqlValueView::Int(now as int),
            ],
    {
        let mut sql = to_owned_string("INSERT INTO ");
        sql.append(self.table_name());
        sql.append(
            " (name, slug, description, definition, created_at, updated_at) VALUES (?1, ?2, ?3, ?4, ?5, ?5) RETURNING ",
        );
        sql.append(ITEM_COLUMNS);
        let mut binds: Vec<SqlValue> = Vec::new();
        binds.push(SqlValue::Text(to_owned_string(item.name)));
        binds.push(SqlValue::Text(to_owned_string(item.slug)));
        binds.push(opt_value(item.description));
        binds.push(SqlValue::Text(to_owned_string(item.definition)));
        binds.push(SqlValue::Int(now));
        assert(binds_view(binds@) =~= seq![
            SqlValueView::Text(item.name@),
            SqlValueView::Text(item.slug@),
            opt_text(str_opt(item.description)),
            SqlValueView::Text(item.definition@),
            SqlValueView::Int(now as int),
        ]);
        SqlQuery { sql, binds }
    }

    /// List workshop items, narrowed by name search and ids when given, and paged.
    pub fn get_items_query<'a, F>(&self, lister: &QueryLister<'a, F>) -> (q: SqlQuery)
        ensures
            q.sql@ == items_sql(self@, *lister),
            binds_view(q.binds@) == item_search_binds(*lister),
    {
        let table = self.table_name();
        let a = self.alias();
        let parts = item_filter_parts_of(a, lister);
        let mut sql = to_owned_string("SELECT ");
        push_aliased_columns(&mut sql, a);
        sql.append(" FROM ");
        sql.append(table);
        sql.append(" ");
        sql.append(a);
        if parts.len() > 0 {
            sql.append(" WHERE ");
            push_joined(&mut sql, &parts, " AND ");
        }
        push_paging(&mut sql, &lister.pager);
        assert(sql@ =~= items_sql(self@, *lister));
        SqlQuery { sql, binds: item_search_values(lister) }
    }

    /// Get a workshop item by id.
    pub fn get_item_query(&self, id: i64) -> (q: SqlQuery)
        ensures
            q.sql@ == item_sql(self@),
            binds_view(q.binds@) == seq![SqlValueView::Int(id as int)],
    {
        let table = self.table_name();
        let a = self.alias();
        let mut sql = to_owned_string("SELECT ");
        push_aliased_columns(&mut sql, a);
        sql.append(" FROM ");
        sql.append(table);
        sql.append(" ");
        sql.append(a);
        sql.append(" WHERE ");
        sql.append(a);
        sql.append(".id = ?1");
        assert(sql@ =~= item_sql(self@));
        let mut binds: Vec<SqlValue> = Vec::new();
        binds.push(SqlValue::Int(id));
        assert(binds_view(binds@) =~= seq![SqlValueView::Int(id as int)]);
        SqlQuery { sql, binds }
    }

    /// Update an existing workshop item at time `now`: set the given fields
    /// and the update time. With no field given the update is refused as a
    /// bad request.
    pub fn update_item_query(&self, id: i64, patch: &PatchWorkshopItemDb, now: i64) -> (r: Result<
        SqlQuery,
        ModelError,
    >)
        ensures
            (patch.name is None && patch.description is None && patch.definition is None) <==> r is Err,
            r matches Err(e) ==> e is BadRequest && e.msg() == NO_ITEM_FIELDS@,
            r matches Ok(q) ==> q.sql@ == "UPDATE "@ + spec_table_name(self@) + " SET "@ + joined(
                selected(item_set_parts(*patch)),
                ", "@,
            ) + " WHERE id = ? RETURNING "@ + ITEM_COLUMNS@ && binds_view(q.binds@)
                == item_update_binds(id, *patch, now),
    {
        let mut parts: Vec<(bool, &str)> = Vec::new();
        parts.push((patch.name.is_some(), "name = ?"));
        parts.push((patch.description.is_some(), "description = ?"));
        parts.push((patch.definition.is_some(), "definition = ?"));
        parts.push((true, "updated_at = ?"));
        assert(parts_view(parts@) =~= item_set_parts(*patch));
        let set = build_set(&parts);
        if patch.name.is_none() && patch.description.is_none() && patch.definition.is_none() {
            return Err(ModelError::BadRequest(to_owned_string(NO_ITEM_FIELDS)));
        }
        let mut sql = to_owned_string("UPDATE ");
        sql.append(self.table_name());
        sql.append(" SET ");
        sql.append(set.as_str());
        sql.append(" WHERE id = ? RETURNING ");
        sql.append(ITEM_COLUMNS);
        let mut binds: Vec<SqlValue> = Vec::new();
        match patch.name {
            Some(n) => binds.push(SqlValue::Text(to_owned_string(n))),
            None => {},
        }
        match patch.description {
            Some(d) => binds.push(opt_value(d)),
            None => {},
        }
        match patch.definition {
            Some(d) => binds.push(SqlValue::Text(to_owned_string(d))),
            None => {},
        }
        binds.push(SqlValue::Int(now));
        binds.push(SqlValue::Int(id));
        assert(binds_view(binds@) =~= item_update_binds(id, *patch, now));
        Ok(SqlQuery { sql, binds })
    }

    /// Delete a workshop item by id.
    pub fn delete_item_query(&self, id: i64) -> (q: SqlQuery)
        ensures
            q.sql@ == "DELETE FROM "@ + spec_table_name(self@) + " WHERE id = ? RETURNING "@
                + ITEM_COLUMNS@,
            binds_view(q.binds@) == seq![SqlValueView::Int(id as int)],
    {
        let mut sql = to_owned_string("DELETE FROM ");
        sql.append(self.table_name());
        sql.append(" WHERE id = ? RETURNING ");
        sql.append(ITEM_COLUMNS);
        let mut binds: Vec<SqlValue> = Vec::new();
        binds.push(SqlValue::Int(id));
        assert(binds_view(binds@) =~= seq![SqlValueView::Int(id as int)]);
        SqlQuery { sql, binds }
    }

    /// Get a workshop item by slug for semantic lookups.
    pub fn get_item_by_slug_query(&self, slug: &str) -> (q: SqlQuery)
        ensures
            q.sql@ == "SELECT "@ + ITEM_COLUMNS@ + " FROM "@ + spec_table_name(self@)
                + " WHERE slug = ?"@,
            binds_view(q.binds@) == seq![SqlValueView::Text(slug@)],
    {
        let mut sql = to_owned_string("SELECT ");
        sql.append(ITEM_COLUMNS);
        sql.append(" FROM ");
        sql.append(self.table_name());
        sql.append(" WHERE slug = ?");
        let mut binds: Vec<SqlValue> = Vec::new();
        binds.push(SqlValue::Text(to_owned_string(slug)));
        assert(binds_view(binds@) =~= seq![SqlValueView::Text(slug@)]);
        SqlQuery { sql, binds }
    }
}

/// Shape-specific store.
pub struct ShapeStore {
    pub inner: WorkshopStore,
}

/// Line-specific store.
pub struct LineStore {
    pub inner: WorkshopStore,
}

/// Rule-specific store.
pub struct RuleStore {
    pub inner: WorkshopStore,
}

/// Layout-specific store.
pub struct LayoutStore {
    pub inner: WorkshopStore,
}

impl ShapeStore {
    /// A store of shapes.
    pub fn new() -> (r: Self)
        ensures
            r.inner@ == WorkshopItemType::Shape,
    {
        Self { inner: WorkshopStore::new(WorkshopItemType::Shape) }
    }
}

impl LineStore {
    /// A store of lines.
    pub fn new() -> (r: Self)
        ensures
            r.inner@ == WorkshopItemType::Line,
    {
        Self { inner: WorkshopStore::new(WorkshopItemType::Line) }
    }
}

impl RuleStore {
    /// A store of rules.
    pub fn new() -> (r: Self)
        ensures
            r.inner@ == WorkshopItemType::Rule,
    {
        Self { inner: WorkshopStore::new(WorkshopItemType::Rule) }
    }
}

impl LayoutStore {
    /// A store of layouts.
    pub fn new() -> (r: Self)
        ensures
            r.inner@ == WorkshopItemType::Layout,
    {
        Self { inner: WorkshopStore::new(WorkshopItemType::Layout) }
    }
}

} // verus!
