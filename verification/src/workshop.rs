//! The global workshop: listing requests for its items.
pub mod generic_service;

use vstd::prelude::*;
use crate::common::crud::{ListFilter, ListParams, QueryPager};

verus! {

/// The page size of a workshop listing when none is asked for.
pub const DEFAULT_WORKSHOP_LIMIT: u32 = 50;

/// The query of a workshop listing request.
#[derive(Debug)]
pub struct SearchParams {
    pub ids: Option<Vec<i64>>,
    pub search: Option<String>,
    pub limit: Option<u32>,
    pub offset: Option<i64>,
}

impl SearchParams {
    /// The list request of a workshop listing: the ids and search as the
    /// filter, and a page of the asked size (50 by default) at the asked offset.
    pub fn into_list_params(self) -> (r: ListParams)
        ensures
            r.filter matches Some(f) && f.filter is None && f.ids == self.ids && f.search
                == self.search,
            r.pager == Some(
                QueryPager {
                    limit: match self.limit {
                        Some(l) => l,
                        None => DEFAULT_WORKSHOP_LIMIT,
                    },
                    offset: self.offset,
                },
            ),
    {
        ListParams {
            filter: Some(ListFilter { filter: None, ids: self.ids, search: self.search }),
            pager: Some(
                QueryPager {
                    limit: match self.limit {
                        Some(l) => l,
                        None => DEFAULT_WORKSHOP_LIMIT,
                    },
                    offset: self.offset,
                },
            ),
        }
    }
}

} // verus!
