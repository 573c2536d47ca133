//! The marketplace's records, the invariant tying them together, and the wallet operations
//! through which every balance changes.

use vstd::prelude::*;

use crate::checkout::{item_positions, locked_sum, CheckoutItem, CheckoutSession};
use crate::dispute::{Dispute, DisputeEvidence};
use crate::error::AppError;
use crate::escrow::Escrow;
use crate::ledger::{logged_change, User};
use crate::listing::{CartItem, Listing};
use crate::order::{Order, OrderItem};
use crate::seller::SellerCategoryAccess;
use crate::status::{SellerCategory, TransactionType, UserRole};
use crate::sys::new_record_id;

verus! {

/// Seconds in a day.
pub const SECONDS_PER_DAY: i64 = 86400;

/// Days a new listing stays up.
pub const LISTING_LIFETIME_DAYS: u32 = 30;

/// `now` plus `days` whole days, or `i64::MAX` when that is later than the range allows.
pub open spec fn after_days(now: i64, days: u32) -> i64 {
    if now + days * SECONDS_PER_DAY <= i64::MAX {
        (now + days * SECONDS_PER_DAY) as i64
    } else {
        i64::MAX
    }
}

/// `now` plus `days` whole days, saturating at `i64::MAX`.
pub fn add_days(now: i64, days: u32) -> (r: i64)
    ensures
        r == after_days(now, days),
{
    let span = (days as i64) * SECONDS_PER_DAY;
    match now.checked_add(span) {
        Some(t) => t,
        None => i64::MAX,
    }
}

/// Every record the marketplace keeps. Records refer to each other by their position
/// (their handle) in these tables; no record is ever removed but cart items.
#[derive(Debug)]
pub struct Market {
    pub users: Vec<User>,
    pub listings: Vec<Listing>,
    pub cart_items: Vec<CartItem>,
    pub checkouts: Vec<CheckoutSession>,
    pub checkout_items: Vec<CheckoutItem>,
    pub escrows: Vec<Escrow>,
    pub orders: Vec<Order>,
    pub order_items: Vec<OrderItem>,
    pub disputes: Vec<Dispute>,
    pub evidence: Vec<DisputeEvidence>,
    pub seller_categories: Vec<SellerCategoryAccess>,
}

pub open spec fn users_wf(users: Seq<User>) -> bool {
    forall|u: int| 0 <= u < users.len() ==> (#[trigger] users[u]).wf()
}

pub open spec fn escrows_wf(escrows: Seq<Escrow>, n_users: int) -> bool {
    forall|e: int|
        0 <= e < escrows.len() ==> {
            &&& (#[trigger] escrows[e]).buyer < n_users
            &&& escrows[e].seller < n_users
            &&& escrows[e].amount > 0
        }
}

pub open spec fn orders_wf(orders: Seq<Order>, n_users: int, n_escrows: int) -> bool {
    forall|o: int|
        0 <= o < orders.len() ==> {
            &&& (#[trigger] orders[o]).escrow_id < n_escrows
            &&& orders[o].buyer < n_users
            &&& orders[o].seller < n_users
        }
}

pub open spec fn disputes_wf(disputes: Seq<Dispute>, n_orders: int, n_escrows: int) -> bool {
    forall|d: int|
        0 <= d < disputes.len() ==> {
            &&& (#[trigger] disputes[d]).order_id < n_orders
            &&& disputes[d].escrow_id < n_escrows
        }
}

pub open spec fn listings_wf(listings: Seq<Listing>, n_users: int) -> bool {
    forall|l: int|
        0 <= l < listings.len() ==> {
            &&& (#[trigger] listings[l]).seller < n_users
            &&& listings[l].price > 0
        }
}

pub open spec fn cart_wf(cart: Seq<CartItem>, n_users: int, n_listings: int) -> bool {
    forall|c: int|
        0 <= c < cart.len() ==> {
            &&& (#[trigger] cart[c]).user < n_users
            &&& cart[c].listing_id < n_listings
        }
}

pub open spec fn checkouts_wf(checkouts: Seq<CheckoutSession>, n_users: int) -> bool {
    forall|c: int|
        0 <= c < checkouts.len() ==> {
            &&& (#[trigger] checkouts[c]).user < n_users
            &&& checkouts[c].total_amount >= 0
            &&& checkouts[c].fee_amount >= 0
        }
}

pub open spec fn checkout_items_wf(items: Seq<CheckoutItem>, n_users: int) -> bool {
    forall|i: int|
        0 <= i < items.len() ==> {
            &&& (#[trigger] items[i]).seller < n_users
            &&& items[i].locked_price > 0
        }
}

/// `new` is `old` with user `u`'s wallet changed by `delta` and that change logged.
pub open spec fn wallet_logged(
    old: Seq<User>,
    new: Seq<User>,
    u: usize,
    delta: int,
    kind: TransactionType,
    reference: Option<usize>,
    now: i64,
) -> bool {
    &&& u < old.len()
    &&& new.len() == old.len()
    &&& logged_change(old[u as int], new[u as int], delta, kind, reference, now)
    &&& forall|v: int| 0 <= v < old.len() && v != u ==> new[v] == old[v]
}

/// A credit of `amount` to user `u` referencing escrow `e`, logged as `kind`; a zero
/// amount is no credit at all.
pub open spec fn credit_step(
    old: Seq<User>,
    new: Seq<User>,
    u: usize,
    amount: int,
    kind: TransactionType,
    e: usize,
    now: i64,
) -> bool {
    if amount > 0 {
        wallet_logged(old, new, u, amount, kind, Some(e), now)
    } else {
        new == old
    }
}

/// `new` is `old` after escrow `e` paid `b` to `buyer` and then `s` to `seller`.
pub open spec fn payout_logged(
    old: Seq<User>,
    new: Seq<User>,
    buyer: usize,
    b: int,
    seller: usize,
    s: int,
    e: usize,
    now: i64,
) -> bool {
    exists|mid: Seq<User>|
        credit_step(old, mid, buyer, b, TransactionType::EscrowRefund, e, now) && #[trigger] credit_step(
            mid,
            new,
            seller,
            s,
            TransactionType::EscrowRelease,
            e,
            now,
        )
}

/// Paying `b` to `buyer` and `s` to `seller` keeps both balances in range.
pub open spec fn payout_fits(users: Seq<User>, buyer: usize, b: int, seller: usize, s: int) -> bool {
    &&& users[buyer as int].wallet_balance + b + (if buyer == seller {
        s
    } else {
        0
    }) <= i64::MAX
    &&& users[seller as int].wallet_balance + s + (if buyer == seller {
        b
    } else {
        0
    }) <= i64::MAX
}

/// Every checkout item belongs to an existing session, and each session's total is the sum
/// of the prices locked for it.
pub open spec fn sessions_match(checkouts: Seq<CheckoutSession>, items: Seq<CheckoutItem>) -> bool {
    &&& forall|i: int| 0 <= i < items.len() ==> (#[trigger] items[i]).checkout_id < checkouts.len()
    &&& forall|c: int|
        0 <= c < checkouts.len() ==> (#[trigger] checkouts[c]).total_amount == locked_sum(
            items,
            item_positions(items, c as usize, items.len() as int),
        )
}

pub open spec fn categories_wf(access: Seq<SellerCategoryAccess>, n_users: int) -> bool {
    forall|i: int| 0 <= i < access.len() ==> (#[trigger] access[i]).user < n_users
}

impl Market {
    /// Every record refers only to records that exist, every wallet keeps its ledger
    /// invariant, every escrow amount and every price is positive, and each checkout's total
    /// is what its items lock.
    pub open spec fn wf(&self) -> bool {
        let nu = self.users@.len() as int;
        &&& users_wf(self.users@)
        &&& escrows_wf(self.escrows@, nu)
        &&& orders_wf(self.orders@, nu, self.escrows@.len() as int)
        &&& disputes_wf(self.disputes@, self.orders@.len() as int, self.escrows@.len() as int)
        &&& listings_wf(self.listings@, nu)
        &&& cart_wf(self.cart_items@, nu, self.listings@.len() as int)
        &&& checkouts_wf(self.checkouts@, nu)
        &&& checkout_items_wf(self.checkout_items@, nu)
        &&& sessions_match(self.checkouts@, self.checkout_items@)
        &&& categories_wf(self.seller_categories@, nu)
    }

    /// Everything but the users is as in `other`.
    pub open spec fn same_but_users(&self, other: &Market) -> bool {
        &&& self.listings@ == other.listings@
        &&& self.cart_items@ == other.cart_items@
        &&& self.checkouts@ == other.checkouts@
        &&& self.checkout_items@ == other.checkout_items@
        &&& self.escrows@ == other.escrows@
        &&& self.orders@ == other.orders@
        &&& self.order_items@ == other.order_items@
        &&& self.disputes@ == other.disputes@
        &&& self.evidence@ == other.evidence@
        &&& self.seller_categories@ == other.seller_categories@
    }

    /// Every table but the sellers' category records is as in `other`.
    pub open spec fn same_but_categories(&self, other: &Market) -> bool {
        &&& self.users@ == other.users@
        &&& self.listings@ == other.listings@
        &&& self.cart_items@ == other.cart_items@
        &&& self.checkouts@ == other.checkouts@
        &&& self.checkout_items@ == other.checkout_items@
        &&& self.escrows@ == other.escrows@
        &&& self.orders@ == other.orders@
        &&& self.order_items@ == other.order_items@
        &&& self.disputes@ == other.disputes@
        &&& self.evidence@ == other.evidence@
    }

    /// No record differs from `other`.
    pub open spec fn unchanged(&self, other: &Market) -> bool {
        &&& self.users@ == other.users@
        &&& self.same_but_users(other)
    }

    /// `self` is `old` with user `u`'s wallet changed by `delta` and that change logged;
    /// all else is as in `old`.
    pub open spec fn wallet_changed(
        &self,
        old: &Market,
        u: usize,
        delta: int,
        kind: TransactionType,
        reference: Option<usize>,
        now: i64,
    ) -> bool {
        &&& wallet_logged(old.users@, self.users@, u, delta, kind, reference, now)
        &&& self.same_but_users(old)
    }

    /// A marketplace with no records.
    pub fn new() -> (r: Market)
        ensures
            r.wf(),
            r.users@.len() == 0,
            r.escrows@.len() == 0,
            r.orders@.len() == 0,
            r.disputes@.len() == 0,
            r.listings@.len() == 0,
            r.checkouts@.len() == 0,
    {
        Market {
            users: Vec::new(),
            listings: Vec::new(),
            cart_items: Vec::new(),
            checkouts: Vec::new(),
            checkout_items: Vec::new(),
            escrows: Vec::new(),
            orders: Vec::new(),
            order_items: Vec::new(),
            disputes: Vec::new(),
            evidence: Vec::new(),
            seller_categories: Vec::new(),
        }
    }

    /// Adds a user with an empty wallet and returns their handle.
    pub fn add_user(&mut self, npub: String, role: UserRole) -> (r: usize)
        requires
            old(self).wf(),
        ensures
            final(self).wf(),
            r == old(self).users@.len(),
            final(self).users@ == old(self).users@.push(final(self).users@[r as int]),
            final(self).users@[r as int].npub == npub,
            final(self).users@[r as int].role == role,
            final(self).users@[r as int].wallet_balance == 0,
            final(self).users@[r as int].transactions@.len() == 0,
            final(self).same_but_users(old(self)),
    {
        let r = self.users.len();
        self.users.push(User::new(npub, role));
        proof {
            let nu = self.users@.len() as int;
            assert(users_wf(self.users@)) by {
                assert forall|u: int| 0 <= u < nu implies (#[trigger] self.users@[u]).wf() by {
                    if u < r {
                        assert(self.users@[u] == old(self).users@[u]);
                    }
                }
            }
        }
        r
    }

    /// Credits user `user` with `amount` and logs it; returns the new balance.
    /// Never fails for an existing user and a non-negative amount that keeps the balance in range.
    pub fn credit_wallet(
        &mut self,
        user: usize,
        amount: i64,
        kind: TransactionType,
        reference: Option<usize>,
        now: i64,
    ) -> (r: Result<i64, AppError>)
        requires
            old(self).wf(),
        ensures
            final(self).wf(),
            r is Ok <==> user < old(self).users@.len() && amount >= 0
                && old(self).users@[user as int].wallet_balance + amount <= i64::MAX,
            r matches Ok(b) ==> final(self).wallet_changed(
                old(self),
                user,
                amount as int,
                kind,
                reference,
                now,
            ) && b == final(self).users@[user as int].wallet_balance,
            r matches Err(e) ==> final(self).unchanged(old(self)) && e == (if user >= old(self).users@.len() {
                AppError::UserNotFound
            } else if amount < 0 {
                AppError::InvalidAmount
            } else {
                AppError::BalanceOverflow
            }),
    {
        if user >= self.users.len() {
            return Err(AppError::UserNotFound);
        }
        let ghost before = self.users@;
        let r = self.users[user].credit(amount, kind, reference, now);
        proof {
            if r is Err {
                assert(self.users@ =~= before);
            }
            assert forall|u: int| 0 <= u < self.users@.len() implies (#[trigger] self.users@[u]).wf() by {
                if u != user {
                    assert(self.users@[u] == before[u]);
                }
            }
        }
        r
    }

    /// Debits user `user` by `amount` if their balance covers it, and logs it; returns the
    /// new balance.
    pub fn deduct_wallet(
        &mut self,
        user: usize,
        amount: i64,
        kind: TransactionType,
        reference: Option<usize>,
        now: i64,
    ) -> (r: Result<i64, AppError>)
        requires
            old(self).wf(),
        ensures
            final(self).wf(),
            r is Ok <==> user < old(self).users@.len() && amount >= 0
                && old(self).users@[user as int].wallet_balance >= amount,
            r matches Ok(b) ==> final(self).wallet_changed(
                old(self),
                user,
                -amount,
                kind,
                reference,
                now,
            ) && b == final(self).users@[user as int].wallet_balance,
            r matches Err(e) ==> final(self).unchanged(old(self)) && e == (if user >= old(self).users@.len() {
                AppError::UserNotFound
            } else if amount < 0 {
                AppError::InvalidAmount
            } else {
                AppError::InsufficientBalanceDetails {
                    needed: amount as u64,
                    available: old(self).users@[user as int].wallet_balance as u64,
                }
            }),
    {
        if user >= self.users.len() {
            return Err(AppError::UserNotFound);
        }
        let ghost before = self.users@;
        let r = self.users[user].debit(amount, kind, reference, now);
        proof {
            if r is Err {
                assert(self.users@ =~= before);
            }
            assert forall|u: int| 0 <= u < self.users@.len() implies (#[trigger] self.users@[u]).wf() by {
                if u != user {
                    assert(self.users@[u] == before[u]);
                }
            }
        }
        r
    }

    /// Puts up a listing for `seller` at a positive `price`, active for thirty days from `now`.
    pub fn add_listing(
        &mut self,
        seller: usize,
        title: String,
        description: String,
        price: i64,
        category: SellerCategory,
        stock: Option<i64>,
        now: i64,
    ) -> (r: Result<usize, AppError>)
        requires
            old(self).wf(),
        ensures
            final(self).wf(),
            r is Ok <==> seller < old(self).users@.len() && price > 0,
            r matches Err(e) ==> final(self).unchanged(old(self)) && e == (if seller >= old(self).users@.len() {
                AppError::UserNotFound
            } else {
                AppError::InvalidAmount
            }),
            r matches Ok(l) ==> {
                let x = final(self).listings@[l as int];
                &&& l == old(self).listings@.len()
                &&& final(self).listings@ == old(self).listings@.push(x)
                &&& x.seller == seller && x.price == price && x.category == category
                &&& x.stock == stock && x.is_active && x.created_at == now
                &&& x.expires_at == after_days(now, LISTING_LIFETIME_DAYS)
                &&& final(self).users@ == old(self).users@
                &&& final(self).cart_items@ == old(self).cart_items@
                &&& final(self).checkouts@ == old(self).checkouts@
                &&& final(self).checkout_items@ == old(self).checkout_items@
                &&& final(self).escrows@ == old(self).escrows@
                &&& final(self).orders@ == old(self).orders@
                &&& final(self).disputes@ == old(self).disputes@
            },
    {
        if seller >= self.users.len() {
            return Err(AppError::UserNotFound);
        }
        if price <= 0 {
            return Err(AppError::InvalidAmount);
        }
        let l = self.listings.len();
        let listing = Listing {
            id: new_record_id(),
            seller,
            title,
            description,
            price,
            category,
            is_active: true,
            stock,
            created_at: now,
            updated_at: now,
            expires_at: add_days(now, LISTING_LIFETIME_DAYS),
        };
        self.listings.push(listing);
        proof {
            assert forall|i: int| 0 <= i < self.listings@.len() implies (#[trigger] self.listings@[i]).seller
                < self.users@.len() && self.listings@[i].price > 0 by {
                if i < l {
                    assert(self.listings@[i] == old(self).listings@[i]);
                }
            }
        }
        Ok(l)
    }

    /// Puts listing `listing` into `user`'s cart if it is available at `now` and not there yet.
    pub fn add_to_cart(&mut self, user: usize, listing: usize, now: i64) -> (r: Result<
        usize,
        AppError,
    >)
        requires
            old(self).wf(),
        ensures
            final(self).wf(),
            r is Ok <==> user < old(self).users@.len() && listing < old(self).listings@.len()
                && old(self).listings@[listing as int].available_at(now) && !exists|c: int|
                0 <= c < old(self).cart_items@.len() && (#[trigger] old(self).cart_items@[c]).user
                == user && old(self).cart_items@[c].listing_id == listing,
            r is Err ==> final(self).unchanged(old(self)),
            r matches Ok(c) ==> {
                let x = final(self).cart_items@[c as int];
                &&& c == old(self).cart_items@.len()
                &&& final(self).cart_items@ == old(self).cart_items@.push(x)
                &&& x.user == user && x.listing_id == listing && x.added_at == now
                &&& final(self).users@ == old(self).users@
                &&& final(self).listings@ == old(self).listings@
                &&& final(self).checkouts@ == old(self).checkouts@
                &&& final(self).checkout_items@ == old(self).checkout_items@
                &&& final(self).escrows@ == old(self).escrows@
                &&& final(self).orders@ == old(self).orders@
                &&& final(self).disputes@ == old(self).disputes@
            },
    {
        if user >= self.users.len() {
            return Err(AppError::UserNotFound);
        }
        if listing >= self.listings.len() {
            return Err(AppError::ListingNotFound);
        }
        if !self.listings[listing].is_available(now) {
            return Err(AppError::ListingNotAvailable);
        }
        let n = self.cart_items.len();
        let mut i: usize = 0;
        while i < n
            invariant
                n == self.cart_items@.len(),
                i <= n,
                self.wf(),
                self.unchanged(old(self)),
                forall|c: int|
                    0 <= c < i ==> !((#[trigger] self.cart_items@[c]).user == user
                        && self.cart_items@[c].listing_id == listing),
            decreases n - i,
        {
            if self.cart_items[i].user == user && self.cart_items[i].listing_id == listing {
                return Err(AppError::ItemAlreadyInCart);
            }
            i = i + 1;
        }
        let item = CartItem { id: new_record_id(), user, listing_id: listing, added_at: now };
        self.cart_items.push(item);
        proof {
            assert forall|c: int| 0 <= c < self.cart_items@.len() implies (#[trigger] self.cart_items@[c]).user
                < self.users@.len() && self.cart_items@[c].listing_id < self.listings@.len() by {
                if c < n {
                    assert(self.cart_items@[c] == old(self).cart_items@[c]);
                }
            }
        }
        Ok(n)
    }
}

} // verus!
