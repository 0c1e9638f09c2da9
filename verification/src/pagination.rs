//! Page arithmetic for listings.
use vstd::prelude::*;

verus! {

/// Page requested by a listing (both optional in the query string).
#[derive(Clone, Copy, Debug)]
pub struct PaginationParams {
    pub page: Option<u64>,
    pub per_page: Option<u64>,
}

/// The page to show: the requested one, at least 1 (default 1).
pub open spec fn page_of(page: Option<u64>) -> u64 {
    match page {
        Some(p) => if p >= 1 {
            p
        } else {
            1
        },
        None => 1,
    }
}

/// Rows per page: the requested count clamped to 1..=100 (default 10).
pub open spec fn per_page_of(per_page: Option<u64>) -> u64 {
    match per_page {
        Some(n) => if n < 1 {
            1
        } else if n > 100 {
            100
        } else {
            n
        },
        None => 10,
    }
}

impl PaginationParams {
    /// Parameters as given.
    pub fn new(page: Option<u64>, per_page: Option<u64>) -> (p: Self)
        ensures
            p.page == page,
            p.per_page == per_page,
    {
        Self { page, per_page }
    }

    /// The page to show, at least 1.
    pub fn page(&self) -> (p: u64)
        ensures
            p == page_of(self.page),
            p >= 1,
    {
        match self.page {
            Some(p) => if p >= 1 {
                p
            } else {
                1
            },
            None => 1,
        }
    }

    /// Rows per page, between 1 and 100.
    pub fn per_page(&self) -> (n: u64)
        ensures
            n == per_page_of(self.per_page),
            1 <= n <= 100,
    {
        match self.per_page {
            Some(n) => if n < 1 {
                1
            } else if n > 100 {
                100
            } else {
                n
            },
            None => 10,
        }
    }

    /// Rows to skip before the page: `(page - 1) * per_page`.
    pub fn offset(&self) -> (o: u64)
        requires
            (page_of(self.page) - 1) * per_page_of(self.per_page) <= u64::MAX,
        ensures
            o == (page_of(self.page) - 1) * per_page_of(self.per_page),
    {
        (self.page() - 1) * self.per_page()
    }
}

/// The number of pages of a listing, as the user listing reports it: the
/// quotient `total / per_page` rounded up (computed through
/// binary floating point, so an empty listing over zero rows per page gives
/// 0 and a non-empty one gives `u64::MAX`), and at least 1.
pub open spec fn page_count(total: u64, per_page: u64) -> u64 {
    let pages: int = if per_page == 0 {
        if total == 0 {
            0
        } else {
            u64::MAX as int
        }
    } else {
        (total + per_page - 1) / (per_page as int)
    };
    if pages < 1 {
        1
    } else {
        pages as u64
    }
}

/// Counts the pages of a listing. Within `total + per_page <= 2^53` the
/// floating-point division the listing uses rounds to the same page count
/// as exact arithmetic; the requirement keeps to that range.
pub fn total_pages(total: u64, per_page: u64) -> (n: u64)
    requires
        per_page == 0 || total + per_page <= 0x20_0000_0000_0000,
    ensures
        n == page_count(total, per_page),
        n >= 1,
{
    let pages: u64 = if per_page == 0 {
        if total == 0 {
            0
        } else {
            u64::MAX
        }
    } else {
        (total + per_page - 1) / per_page
    };
    if pages < 1 {
        1
    } else {
        pages
    }
}

/// A query string without a page number starts at page 1.
pub fn default_page() -> (p: u64)
    ensures
        p == 1,
{
    1
}

} // verus!
