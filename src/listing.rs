//! Listings, carts, and paging through search results.

use vstd::prelude::*;

use crate::status::SellerCategory;

verus! {

/// Something a seller offers.
#[derive(Debug, Clone)]
pub struct Listing {
    pub id: String,
    pub seller: usize,
    pub title: String,
    pub description: String,
    /// Current price; later edits do not reach a checkout that locked an earlier one.
    pub price: i64,
    pub category: SellerCategory,
    pub is_active: bool,
    /// Units left; `None` for no limit.
    pub stock: Option<i64>,
    pub created_at: i64,
    pub updated_at: i64,
    pub expires_at: i64,
}

impl Listing {
    pub open spec fn available_at(self, now: i64) -> bool {
        &&& self.is_active
        &&& self.expires_at > now
        &&& match self.stock {
            Some(s) => s > 0,
            None => true,
        }
    }

    /// Active, not expired at `now`, and in stock.
    pub fn is_available(&self, now: i64) -> (r: bool)
        ensures
            r == self.available_at(now),
    {
        self.is_active && self.expires_at > now && match self.stock {
            Some(s) => s > 0,
            None => true,
        }
    }

    /// Expired at `now`.
    pub fn is_expired(&self, now: i64) -> (r: bool)
        ensures
            r == (self.expires_at <= now),
    {
        self.expires_at <= now
    }
}

/// A listing a user put in their cart.
#[derive(Debug, Clone)]
pub struct CartItem {
    pub id: String,
    pub user: usize,
    pub listing_id: usize,
    pub added_at: i64,
}

/// Paging part of a listing search.
#[derive(Debug, Clone)]
pub struct ListingSearchQuery {
    pub q: Option<String>,
    pub category: Option<String>,
    pub min_price: Option<i64>,
    pub max_price: Option<i64>,
    pub seller: Option<String>,
    pub page: Option<u32>,
    pub per_page: Option<u32>,
}

impl ListingSearchQuery {
    pub open spec fn page_spec(self) -> u32 {
        match self.page {
            Some(p) => if p >= 1 {
                p
            } else {
                1
            },
            None => 1,
        }
    }

    pub open spec fn per_page_spec(self) -> u32 {
        match self.per_page {
            Some(n) => if n <= 100 {
                n
            } else {
                100
            },
            None => 20,
        }
    }

    /// The page asked for, 1 when absent or 0.
    pub fn page(&self) -> (r: u32)
        ensures
            r == self.page_spec(),
    {
        match self.page {
            Some(p) => if p >= 1 {
                p
            } else {
                1
            },
            None => 1,
        }
    }

    /// Results per page: 20 when absent, at most 100.
    pub fn per_page(&self) -> (r: u32)
        ensures
            r == self.per_page_spec(),
    {
        match self.per_page {
            Some(n) => if n <= 100 {
                n
            } else {
                100
            },
            None => 20,
        }
    }

    /// How many results the asked page skips, saturating at `u32::MAX`.
    pub fn offset(&self) -> (r: u32)
        ensures
            r as int == if (self.page_spec() - 1) * self.per_page_spec() <= u32::MAX {
                (self.page_spec() - 1) * self.per_page_spec()
            } else {
                u32::MAX as int
            },
    {
        let p = self.page() as u64;
        let n = self.per_page() as u64;
        assert((p - 1) * n <= 0xffff_ffffu64 * 100) by (nonlinear_arith)
            requires
                1 <= p <= 0xffff_ffffu64,
                n <= 100,
        ;
        let o = (p - 1) * n;
        if o > u32::MAX as u64 {
            u32::MAX
        } else {
            o as u32
        }
    }
}

} // verus!
