//! Listing parameters shared by the stores and services: paging and filters.
use vstd::prelude::*;

verus! {

/// The page size when none is asked for.
pub const DEFAULT_LIMIT: u32 = 100;

/// Paging of a list: at most `limit` rows, after skipping `offset` rows.
#[derive(Clone, Copy, Debug)]
pub struct QueryPager {
    pub limit: u32,
    pub offset: Option<i64>,
}

/// Filters of a store query, borrowing from the request.
pub struct QueryFilter<'a, F = ()> {
    /// Session address whose access widens the visible rows.
    pub access: Option<&'a str>,
    pub filter: Option<F>,
    /// Only these ids.
    pub ids: Option<&'a Vec<i64>>,
    /// Only rows whose text contains this.
    pub search: Option<&'a str>,
}

/// A store query: optional filters and the paging.
pub struct QueryLister<'a, F = ()> {
    pub filter: Option<QueryFilter<'a, F>>,
    pub pager: QueryPager,
}

/// Filters of a list request.
pub struct ListFilter<F = ()> {
    pub filter: Option<F>,
    pub ids: Option<Vec<i64>>,
    pub search: Option<String>,
}

/// A list request: optional filters and optional paging.
pub struct ListParams<F = ()> {
    pub filter: Option<ListFilter<F>>,
    pub pager: Option<QueryPager>,
}

impl<'a, F> QueryLister<'a, F> {
    /// The store query for a list request: its paging, or the first
    /// `DEFAULT_LIMIT` rows; its ids and search, with no access and no custom filter.
    pub fn from_params(params: &'a ListParams<F>) -> (r: QueryLister<'a, F>)
        ensures
            r.pager == (match params.pager {
                Some(p) => p,
                None => QueryPager { limit: DEFAULT_LIMIT, offset: None },
            }),
            params.filter is None <==> r.filter is None,
            r.filter matches Some(q) ==> {
                let f = params.filter.unwrap();
                &&& q.access is None
                &&& q.filter is None
                &&& (q.ids is Some <==> f.ids is Some)
                &&& (q.ids matches Some(v) ==> v@ == f.ids.unwrap()@)
                &&& (q.search is Some <==> f.search is Some)
                &&& (q.search matches Some(t) ==> t@ == f.search.unwrap()@)
            },
    {
        let pager = match &params.pager {
            Some(p) => *p,
            None => QueryPager { limit: DEFAULT_LIMIT, offset: None },
        };
        let filter = match &params.filter {
            Some(f) => Some(
                QueryFilter {
                    access: None,
                    filter: None,
                    ids: match &f.ids {
                        Some(v) => Some(v),
                        None => None,
                    },
                    search: match &f.search {
                        Some(s) => Some(s.as_str()),
                        None => None,
                    },
                },
            ),
            None => None,
        };
        QueryLister { filter, pager }
    }
}

/// The store query of a visibility-filtered list request, made by a session or
/// by no session: as `QueryLister::from_params`, always with a filter (an
/// empty one when the request has none) whose access is the session's
/// address, so that a request without a session sees only public rows.
pub fn session_lister<'a, F>(params: &'a ListParams<F>, session_address: Option<&'a str>) -> (r:
    QueryLister<'a, F>)
    ensures
        r.pager == (match params.pager {
            Some(p) => p,
            None => QueryPager { limit: DEFAULT_LIMIT, offset: None },
        }),
        r.filter matches Some(q) && {
            &&& q.access == session_address
            &&& q.filter is None
            &&& (params.filter matches Some(f) ==> {
                &&& (q.ids is Some <==> f.ids is Some)
                &&& (q.ids matches Some(v) ==> v@ == f.ids.unwrap()@)
                &&& (q.search is Some <==> f.search is Some)
                &&& (q.search matches Some(t) ==> t@ == f.search.unwrap()@)
            })
            &&& (params.filter is None ==> q.ids is None && q.search is None)
        },
{
    let mut lister = QueryLister::from_params(params);
    match lister.filter {
        Some(f) => {
            lister.filter = Some(
                QueryFilter { access: session_address, filter: f.filter, ids: f.ids, search: f.search },
            );
        },
        None => {
            lister.filter = Some(
                QueryFilter { access: session_address, filter: None, ids: None, search: None },
            );
        },
    }
    lister
}

} // verus!
