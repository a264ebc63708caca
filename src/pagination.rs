//! Paging of listings.

use vstd::prelude::*;

verus! {

/// Requested page (from 0) and page size.
#[derive(Debug)]
pub struct PaginationQuery {
    pub page: u32,
    pub size: u32,
}

/// One page of a listing.
#[derive(Debug)]
pub struct Page<T> {
    pub items: Vec<T>,
    pub page: u32,
    pub size: u32,
    pub total_items: i64,
    pub total_pages: u32,
}

/// Page asked for when the query names none.
pub fn default_page() -> (r: u32)
    ensures
        r == 0,
{
    0
}

/// Page size used when the query names none.
pub fn default_size() -> (r: u32)
    ensures
        r == 10,
{
    10
}

/// Number of pages of `size` items that `total_items` items fill, the last
/// one possibly partial. With a size of zero there is no page when there is
/// no item, and the count saturates otherwise.
pub open spec fn page_count(total_items: nat, size: nat) -> nat {
    if size == 0 {
        if total_items == 0 {
            0
        } else {
            u32::MAX as nat
        }
    } else {
        let pages = (total_items + size - 1) as int / size as int;
        if pages > u32::MAX {
            u32::MAX as nat
        } else {
            pages as nat
        }
    }
}

pub fn total_pages(total_items: u64, size: u32) -> (r: u32)
    ensures
        r as nat == page_count(total_items as nat, size as nat),
{
    if size == 0 {
        if total_items == 0 {
            0
        } else {
            u32::MAX
        }
    } else {
        let s = size as u64;
        let q = total_items / s;
        let rem: u64 = if total_items % s == 0 { 0 } else { 1 };
        proof {
            assert(q + rem == (total_items + s - 1) as int / s as int) by (nonlinear_arith)
                requires
                    s > 0,
                    q == total_items / s,
                    rem == if total_items % s == 0 { 0int } else { 1int },
            ;
        }
        if q >= u32::MAX as u64 {
            u32::MAX
        } else {
            (q + rem) as u32
        }
    }
}

} // verus!
