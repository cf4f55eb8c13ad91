//! Listing statements: an optional visibility/search/id filter and paging.
use vstd::prelude::*;
use vstd::string::StringExecFns;
use crate::common::crud::{QueryFilter, QueryLister, QueryPager};
use crate::db::sql::{
    binds_view, decimal, joined_ids, like_pattern, like_text, push_decimal, push_joined_ids,
    push_signed_decimal, signed_decimal, SqlQuery, SqlValue, SqlValueView,
};
use crate::strings::{to_owned_string};

verus! {

/// The paging of a listing: `" LIMIT n"`, then `" OFFSET m"` when an offset is given.
pub open spec fn paging_sql(p: QueryPager) -> Seq<char> {
    " LIMIT "@ + decimal(p.limit as nat) + match p.offset {
        Some(o) => " OFFSET "@ + signed_decimal(o as int),
        None => Seq::empty(),
    }
}

/// Appends the paging of a listing.
pub fn push_paging(s: &mut String, p: &QueryPager)
    ensures
        final(s)@ == old(s)@ + paging_sql(*p),
{
    s.append(" LIMIT ");
    push_decimal(s, p.limit as u64);
    match p.offset {
        Some(o) => {
            s.append(" OFFSET ");
            push_signed_decimal(s, o);
        },
        None => {},
    }
    assert(s@ =~= old(s)@ + paging_sql(*p));
}

/// The `WHERE` part of a visibility-filtered listing: the rows visible to the
/// session address when one is given (`visible`), else the public ones
/// (`public`); then the search test when searching; then the id list after
/// `ids_prefix` when ids are given. Parts are joined by `" AND "`.
pub open spec fn visible_where_sql<'a, F>(
    visible: Seq<char>,
    public: Seq<char>,
    search: Seq<char>,
    ids_prefix: Seq<char>,
    f: QueryFilter<'a, F>,
) -> Seq<char> {
    " WHERE "@ + (if f.access is Some {
        visible
    } else {
        public
    }) + (if f.search is Some {
        " AND "@ + search
    } else {
        Seq::empty()
    }) + match f.ids {
        Some(ids) => " AND "@ + ids_prefix + joined_ids(ids@, ", "@) + ")"@,
        None => Seq::empty(),
    }
}

/// A visibility-filtered listing: `head`, the `WHERE` part when there is a
/// filter, then the paging.
pub open spec fn visible_listing_sql<'a, F>(
    head: Seq<char>,
    visible: Seq<char>,
    public: Seq<char>,
    search: Seq<char>,
    ids_prefix: Seq<char>,
    l: QueryLister<'a, F>,
) -> Seq<char> {
    head + match l.filter {
        Some(f) => visible_where_sql(visible, public, search, ids_prefix, f),
        None => Seq::empty(),
    } + paging_sql(l.pager)
}

/// The values of a visibility-filtered listing: the session address when
/// given, then the search pattern twice when searching.
pub open spec fn visible_listing_binds<'a, F>(l: QueryLister<'a, F>) -> Seq<SqlValueView> {
    match l.filter {
        Some(f) => (match f.access {
            Some(a) => seq![SqlValueView::Text(a@)],
            None => Seq::empty(),
        }) + (match f.search {
            Some(t) => seq![
                SqlValueView::Text(like_pattern(t@)),
                SqlValueView::Text(like_pattern(t@)),
            ],
            None => Seq::empty(),
        }),
        None => Seq::empty(),
    }
}

/// Appends the `WHERE` part of a visibility-filtered listing.
fn push_visible_where<'a, F>(
    s: &mut String,
    visible: &str,
    public: &str,
    search: &str,
    ids_prefix: &str,
    f: &QueryFilter<'a, F>,
)
    ensures
        final(s)@ == old(s)@ + visible_where_sql(visible@, public@, search@, ids_prefix@, *f),
{
    s.append(" WHERE ");
    if f.access.is_some() {
        s.append(visible);
    } else {
        s.append(public);
    }
    let ghost a = s@;
    if f.search.is_some() {
        s.append(" AND ");
        s.append(search);
    }
    match f.ids {
        Some(ids) => {
            s.append(" AND ");
            s.append(ids_prefix);
            push_joined_ids(s, ids, ", ");
            s.append(")");
        },
        None => {},
    }
    assert(s@ =~= old(s)@ + visible_where_sql(visible@, public@, search@, ids_prefix@, *f));
}

/// The statement and values of a visibility-filtered listing.
pub fn visible_listing<'a, F>(
    head: &str,
    visible: &str,
    public: &str,
    search: &str,
    ids_prefix: &str,
    l: &QueryLister<'a, F>,
) -> (q: SqlQuery)
    ensures
        q.sql@ == visible_listing_sql(head@, visible@, public@, search@, ids_prefix@, *l),
        binds_view(q.binds@) == visible_listing_binds(*l),
{
    let mut sql = to_owned_string(head);
    let mut binds: Vec<SqlValue> = Vec::new();
    match &l.filter {
        Some(f) => {
            push_visible_where(&mut sql, visible, public, search, ids_prefix, f);
            match f.access {
                Some(a) => {
                    binds.push(SqlValue::Text(to_owned_string(a)));
                },
                None => {},
            }
            match f.search {
                Some(t) => {
                    binds.push(SqlValue::Text(like_text(t)));
                    binds.push(SqlValue::Text(like_text(t)));
                },
                None => {},
            }
            assert(binds_view(binds@) =~= visible_listing_binds(*l));
        },
        None => {
            assert(binds_view(binds@) =~= visible_listing_binds(*l));
        },
    }
    push_paging(&mut sql, &l.pager);
    assert(sql@ =~= visible_listing_sql(head@, visible@, public@, search@, ids_prefix@, *l));
    SqlQuery { sql, binds }
}

/// Who lists without a session sees only public rows: the statement keeps
/// the public test as its first condition, and no address is bound.
pub proof fn law_anonymous_listing_is_public<'a, F>(
    head: Seq<char>,
    visible: Seq<char>,
    public: Seq<char>,
    search: Seq<char>,
    ids_prefix: Seq<char>,
    l: QueryLister<'a, F>,
)
    requires
        l.filter matches Some(f) && f.access is None,
    ensures
        ({
            let start = head + " WHERE "@ + public;
            let sql = visible_listing_sql(head, visible, public, search, ids_prefix, l);
            sql.len() >= start.len() && sql.take(start.len() as int) == start
        }),
        forall|i: int|
            0 <= i < visible_listing_binds(l).len() ==> #[trigger] visible_listing_binds(l)[i]
                == SqlValueView::Text(like_pattern(l.filter.unwrap().search.unwrap()@)),
{
    let start = head + " WHERE "@ + public;
    let f = l.filter.unwrap();
    let sql = visible_listing_sql(head, visible, public, search, ids_prefix, l);
    let rest = visible_where_sql(visible, public, search, ids_prefix, f).skip(
        (" WHERE "@ + public).len() as int,
    ) + paging_sql(l.pager);
    assert(sql =~= start + rest);
    assert(sql.take(start.len() as int) =~= start);
    assert(visible_listing_binds(l) =~= (match f.search {
        Some(t) => seq![
            SqlValueView::Text(like_pattern(t@)),
            SqlValueView::Text(like_pattern(t@)),
        ],
        None => Seq::<SqlValueView>::empty(),
    }));
}

/// Who lists with a session sees the rows visible to its address: the
/// statement keeps the visibility test as its first condition, and the
/// address is the first value bound.
pub proof fn law_session_listing_is_visible_to_address<'a, F>(
    head: Seq<char>,
    visible: Seq<char>,
    public: Seq<char>,
    search: Seq<char>,
    ids_prefix: Seq<char>,
    l: QueryLister<'a, F>,
    address: &str,
)
    requires
        l.filter matches Some(f) && f.access == Some(address),
    ensures
        ({
            let start = head + " WHERE "@ + visible;
            let sql = visible_listing_sql(head, visible, public, search, ids_prefix, l);
            sql.len() >= start.len() && sql.take(start.len() as int) == start
        }),
        visible_listing_binds(l).len() >= 1,
        visible_listing_binds(l)[0] == SqlValueView::Text(address@),
{
    let start = head + " WHERE "@ + visible;
    let f = l.filter.unwrap();
    let sql = visible_listing_sql(head, visible, public, search, ids_prefix, l);
    let rest = visible_where_sql(visible, public, search, ids_prefix, f).skip(
        (" WHERE "@ + visible).len() as int,
    ) + paging_sql(l.pager);
    assert(sql =~= start + rest);
    assert(sql.take(start.len() as int) =~= start);
}

} // verus!
