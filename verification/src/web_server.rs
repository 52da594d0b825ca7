//! What every handler is handed, and the paging of list requests.

use vstd::prelude::*;

use crate::config::AppConfig;
use crate::db::Database;

verus! {

/// The page that a list request gets when it names none.
pub const DEFAULT_PAGE: u32 = 1;

/// The page size that a list request gets when it names none.
pub const DEFAULT_PER_PAGE: u32 = 20;

/// The state that handlers share: the tables and the configuration.
pub struct AppState {
    pub db: Database,
    pub app_config: AppConfig,
}

/// The paging that a list request asks for.
#[derive(Debug, Clone, Copy)]
pub struct Pagination {
    pub page: Option<u32>,
    pub per_page: Option<u32>,
}

/// The page asked for, or the first.
pub open spec fn page_of(pagination: Pagination) -> int {
    match pagination.page {
        Some(page) => page as int,
        None => DEFAULT_PAGE as int,
    }
}

/// The page size asked for, or twenty.
pub open spec fn per_page_of(pagination: Pagination) -> int {
    match pagination.per_page {
        Some(per_page) => per_page as int,
        None => DEFAULT_PER_PAGE as int,
    }
}

impl Pagination {
    /// How many rows to fetch: the page size.
    pub fn limit(&self) -> (limit: i64)
        ensures
            limit == per_page_of(*self),
    {
        match self.per_page {
            Some(per_page) => per_page as i64,
            None => DEFAULT_PER_PAGE as i64,
        }
    }

    /// How many rows to skip: the pages before this one. Page 0 lies before
    /// the first page, so its offset is negative. `None` where the product
    /// does not fit in 64 signed bits.
    pub fn offset(&self) -> (offset: Option<i64>)
        ensures
            offset is Some <==> (page_of(*self) - 1) * per_page_of(*self) <= i64::MAX,
            offset matches Some(rows) ==> rows == (page_of(*self) - 1) * per_page_of(*self),
    {
        let page: i128 = match self.page {
            Some(page) => page as i128,
            None => DEFAULT_PAGE as i128,
        };
        let per_page: i128 = self.limit() as i128;
        assert(-0x1_0000_0000 <= (page - 1) * per_page <= 0x1_0000_0000 * 0x1_0000_0000) by (nonlinear_arith)
            requires
                0 <= page <= 0xffff_ffff,
                0 <= per_page <= 0xffff_ffff,
        ;
        let rows: i128 = (page - 1) * per_page;
        if rows > i64::MAX as i128 {
            None
        } else {
            Some(rows as i64)
        }
    }
}

} // verus!
