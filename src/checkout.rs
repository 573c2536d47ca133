//! Checkout: prices locked for a while, then one escrow and one order per seller.

use vstd::prelude::*;

use crate::error::AppError;
use crate::escrow::{Escrow, EscrowService};
use crate::ledger::WalletTransaction;
use crate::listing::{CartItem, Listing};
use crate::market::{
    after_days, checkout_items_wf, checkouts_wf, orders_wf, sessions_match, Market,
};
use crate::order::{Order, OrderItem};
use crate::status::{CheckoutStatus, EscrowStatus, OrderStatus, TransactionType};
use crate::sys::new_record_id;

verus! {

/// A user's checkout, with the prices of its items frozen until `expires_at`.
#[derive(Debug, Clone)]
pub struct CheckoutSession {
    pub id: String,
    pub user: usize,
    pub status: CheckoutStatus,
    /// Sum of the locked prices.
    pub total_amount: i64,
    pub fee_amount: i64,
    pub created_at: i64,
    /// Fixed at creation.
    pub expires_at: i64,
    pub paid_at: Option<i64>,
}

/// One listing's price as locked into a checkout session.
#[derive(Debug, Clone)]
pub struct CheckoutItem {
    pub id: String,
    pub checkout_id: usize,
    pub listing_id: usize,
    pub seller: usize,
    pub locked_price: i64,
    pub encrypted_shipping: Option<String>,
}

impl CheckoutSession {
    pub open spec fn expired_at(self, now: i64) -> bool {
        self.expires_at <= now || self.status == CheckoutStatus::Expired
    }

    /// Its lock has run out at `now`, or it was marked expired.
    pub fn is_expired(&self, now: i64) -> (r: bool)
        ensures
            r == self.expired_at(now),
    {
        self.expires_at <= now || self.status == CheckoutStatus::Expired
    }

    /// Seconds of price lock left at `now`, never below 0 (saturating at `i64::MAX`).
    pub fn time_remaining(&self, now: i64) -> (r: i64)
        ensures
            r == if self.expires_at - now <= 0 {
                0
            } else if self.expires_at - now > i64::MAX {
                i64::MAX as int
            } else {
                self.expires_at - now
            },
    {
        if self.expires_at > now {
            let d = (self.expires_at as i128) - (now as i128);
            if d > i64::MAX as i128 {
                i64::MAX
            } else {
                d as i64
            }
        } else {
            0
        }
    }
}

/// Seconds in an hour.
pub const SECONDS_PER_HOUR: i64 = 3600;

/// `now` plus `hours` whole hours, or `i64::MAX` when that is later than the range allows.
pub open spec fn after_hours(now: i64, hours: u32) -> i64 {
    if now + hours * SECONDS_PER_HOUR <= i64::MAX {
        (now + hours * SECONDS_PER_HOUR) as i64
    } else {
        i64::MAX
    }
}

fn add_hours(now: i64, hours: u32) -> (r: i64)
    ensures
        r == after_hours(now, hours),
{
    match now.checked_add((hours as i64) * SECONDS_PER_HOUR) {
        Some(t) => t,
        None => i64::MAX,
    }
}

/// A session of `user` that is pending and whose price lock still holds at `now`.
pub open spec fn live_session(s: CheckoutSession, user: usize, now: i64) -> bool {
    s.user == user && s.status == CheckoutStatus::Pending && s.expires_at > now
}

pub open spec fn has_live_session(m: Market, user: usize, now: i64) -> bool {
    exists|c: int| 0 <= c < m.checkouts@.len() && live_session(#[trigger] m.checkouts@[c], user, now)
}

/// `user` has something in the cart.
pub open spec fn has_cart(cart: Seq<CartItem>, user: usize) -> bool {
    exists|c: int| 0 <= c < cart.len() && (#[trigger] cart[c]).user == user
}

/// The listings among the first `n` cart entries of `user` that are available at `now`,
/// in cart order: what a new checkout locks.
pub open spec fn lockable(
    cart: Seq<CartItem>,
    listings: Seq<Listing>,
    user: usize,
    now: i64,
    n: int,
) -> Seq<usize>
    decreases n,
{
    if n <= 0 {
        Seq::empty()
    } else {
        let rest = lockable(cart, listings, user, now, n - 1);
        let c = cart[n - 1];
        if c.user == user && listings[c.listing_id as int].available_at(now) {
            rest.push(c.listing_id)
        } else {
            rest
        }
    }
}

/// Sum of the current prices of the listings `ids`.
pub open spec fn price_sum(listings: Seq<Listing>, ids: Seq<usize>) -> int
    decreases ids.len(),
{
    if ids.len() == 0 {
        0
    } else {
        price_sum(listings, ids.drop_last()) + listings[ids.last() as int].price
    }
}

/// `x` locks the current price of listing `l` for checkout `c`.
pub open spec fn locks(x: CheckoutItem, listings: Seq<Listing>, c: usize, l: usize) -> bool {
    &&& x.checkout_id == c
    &&& x.listing_id == l
    &&& x.seller == listings[l as int].seller
    &&& x.locked_price == listings[l as int].price
}

impl Market {
    /// Starts a checkout for `user` at `now`. A pending session whose lock still holds is
    /// returned unchanged. Otherwise the price of every available listing in the cart is
    /// locked (unavailable ones are dropped), the fee is `fee_percent`% of the total,
    /// rounded down, and the lock holds for `price_lock_hours` hours. Returns the session.
    pub fn start_checkout(
        &mut self,
        user: usize,
        fee_percent: u8,
        price_lock_hours: u32,
        now: i64,
    ) -> (r: Result<usize, AppError>)
        requires
            old(self).wf(),
        ensures
            final(self).wf(),
            ({
                let ids = lockable(
                    old(self).cart_items@,
                    old(self).listings@,
                    user,
                    now,
                    old(self).cart_items@.len() as int,
                );
                let total = price_sum(old(self).listings@, ids);
                &&& r is Ok <==> user < old(self).users@.len() && (has_live_session(*old(self), user, now) || (
                has_cart(old(self).cart_items@, user) && total <= i64::MAX && total * fee_percent / 100
                    <= i64::MAX))
                &&& r matches Err(e) ==> final(self).unchanged(old(self)) && e == (if user >= old(self).users@.len() {
                    AppError::UserNotFound
                } else if !has_cart(old(self).cart_items@, user) {
                    AppError::CartEmpty
                } else {
                    AppError::BalanceOverflow
                })
                &&& r matches Ok(c) ==> if has_live_session(*old(self), user, now) {
                    final(self).unchanged(old(self)) && c < old(self).checkouts@.len() && live_session(
                        old(self).checkouts@[c as int],
                        user,
                        now,
                    )
                } else {
                    let x = final(self).checkouts@[c as int];
                    let k = old(self).checkout_items@.len() as int;
                    &&& c == old(self).checkouts@.len()
                    &&& final(self).checkouts@ == old(self).checkouts@.push(x)
                    &&& x.user == user && x.status == CheckoutStatus::Pending
                    &&& x.total_amount == total
                    &&& x.fee_amount == total * fee_percent / 100
                    &&& x.created_at == now && x.paid_at is None
                    &&& x.expires_at == after_hours(now, price_lock_hours)
                    &&& final(self).checkout_items@.len() == k + ids.len()
                    &&& final(self).checkout_items@.subrange(0, k) == old(self).checkout_items@
                    &&& forall|j: int|
                        0 <= j < ids.len() ==> locks(
                            #[trigger] final(self).checkout_items@[k + j],
                            old(self).listings@,
                            c,
                            ids[j],
                        )
                    &&& final(self).users@ == old(self).users@
                    &&& final(self).listings@ == old(self).listings@
                    &&& final(self).cart_items@ == old(self).cart_items@
                    &&& final(self).escrows@ == old(self).escrows@
                    &&& final(self).orders@ == old(self).orders@
                    &&& final(self).order_items@ == old(self).order_items@
                    &&& final(self).disputes@ == old(self).disputes@
                    &&& final(self).evidence@ == old(self).evidence@
                }
            }),
    {
        if user >= self.users.len() {
            return Err(AppError::UserNotFound);
        }
        let nc = self.checkouts.len();
        let mut i: usize = 0;
        while i < nc
            invariant
                nc == self.checkouts@.len(),
                i <= nc,
                forall|j: int| 0 <= j < i ==> !live_session(#[trigger] self.checkouts@[j], user, now),
                self.wf(),
                self.unchanged(old(self)),
            decreases nc - i,
        {
            let s = &self.checkouts[i];
            if s.user == user && s.status == CheckoutStatus::Pending && s.expires_at > now {
                assert(live_session(self.checkouts@[i as int], user, now));
                return Ok(i);
            }
            i = i + 1;
        }
        assert(!has_live_session(*self, user, now));
        let n = self.cart_items.len();
        let mut ids: Vec<usize> = Vec::new();
        let mut total: i64 = 0;
        let mut overflow = false;
        let mut any = false;
        let mut j: usize = 0;
        while j < n
            invariant
                self.wf(),
                self.unchanged(old(self)),
                n == self.cart_items@.len(),
                j <= n,
                ids@ == lockable(self.cart_items@, self.listings@, user, now, j as int),
                forall|t: int| 0 <= t < ids@.len() ==> #[trigger] ids@[t] < self.listings@.len(),
                !overflow ==> total == price_sum(self.listings@, ids@),
                overflow ==> price_sum(self.listings@, ids@) > i64::MAX,
                price_sum(self.listings@, ids@) >= 0,
                any <==> exists|c: int| 0 <= c < j && (#[trigger] self.cart_items@[c]).user == user,
            decreases n - j,
        {
            let ghost before = ids@;
            if self.cart_items[j].user == user {
                any = true;
                let l = self.cart_items[j].listing_id;
                if self.listings[l].is_available(now) {
                    let p = self.listings[l].price;
                    ids.push(l);
                    assert(ids@.drop_last() == before);
                    if !overflow {
                        match total.checked_add(p) {
                            Some(t) => {
                                total = t;
                            },
                            None => {
                                overflow = true;
                            },
                        }
                    }
                }
            }
            j = j + 1;
        }
        if !any {
            return Err(AppError::CartEmpty);
        }
        if overflow {
            return Err(AppError::BalanceOverflow);
        }
        assert(0 <= (total as int) * (fee_percent as int) <= (total as int) * 255) by (nonlinear_arith)
            requires
                0 <= total,
                fee_percent <= 255,
        ;
        let fee_wide = (total as i128) * (fee_percent as i128) / 100;
        if fee_wide > i64::MAX as i128 {
            return Err(AppError::BalanceOverflow);
        }
        let fee = fee_wide as i64;
        let c = nc;
        let k = self.checkout_items.len();
        proof {
            let its = self.checkout_items@;
            assert forall|j: int| 0 <= j < k implies its[j].checkout_id != c by {
                assert(its[j].checkout_id < nc);
            }
            lemma_positions_none(its, c, k as int);
            assert(ids@.subrange(0, 0) =~= Seq::<usize>::empty());
        }
        let mut t: usize = 0;
        while t < ids.len()
            invariant
                old(self).wf(),
                self.seller_categories@ == old(self).seller_categories@,
                c == old(self).checkouts@.len(),
                checkout_items_wf(self.checkout_items@, self.users@.len() as int),
                forall|i: int|
                    0 <= i < self.checkout_items@.len() ==> (#[trigger] self.checkout_items@[i]).checkout_id <= c,
                forall|c2: int|
                    0 <= c2 < c ==> (#[trigger] self.checkouts@[c2]).total_amount == locked_sum(
                        self.checkout_items@,
                        item_positions(self.checkout_items@, c2 as usize, self.checkout_items@.len() as int),
                    ),
                locked_sum(
                    self.checkout_items@,
                    item_positions(self.checkout_items@, c, self.checkout_items@.len() as int),
                ) == price_sum(old(self).listings@, ids@.subrange(0, t as int)),
                self.users@ == old(self).users@,
                self.listings@ == old(self).listings@,
                self.cart_items@ == old(self).cart_items@,
                self.checkouts@ == old(self).checkouts@,
                self.escrows@ == old(self).escrows@,
                self.orders@ == old(self).orders@,
                self.order_items@ == old(self).order_items@,
                self.disputes@ == old(self).disputes@,
                self.evidence@ == old(self).evidence@,
                t <= ids@.len(),
                k == old(self).checkout_items@.len(),
                forall|q: int| 0 <= q < ids@.len() ==> #[trigger] ids@[q] < self.listings@.len(),
                self.checkout_items@.len() == k + t,
                self.checkout_items@.subrange(0, k as int) == old(self).checkout_items@,
                forall|q: int|
                    0 <= q < t ==> locks(
                        #[trigger] self.checkout_items@[k + q],
                        old(self).listings@,
                        c,
                        ids@[q],
                    ),
            decreases ids@.len() - t,
        {
            let l = ids[t];
            let item = CheckoutItem {
                id: new_record_id(),
                checkout_id: c,
                listing_id: l,
                seller: self.listings[l].seller,
                locked_price: self.listings[l].price,
                encrypted_shipping: None,
            };
            let ghost before = self.checkout_items@;
            let cur_len = self.checkout_items.len();
            self.checkout_items.push(item);
            proof {
                let nu = self.users@.len() as int;
                assert(self.checkout_items@.subrange(0, k as int) =~= before.subrange(0, k as int));
                assert forall|q: int| 0 <= q < self.checkout_items@.len() implies {
                    &&& (#[trigger] self.checkout_items@[q]).seller < nu
                    &&& self.checkout_items@[q].locked_price > 0
                } by {
                    if q < before.len() {
                        assert(self.checkout_items@[q] == before[q]);
                    }
                }
                assert(checkout_items_wf(self.checkout_items@, nu));
                let its = self.checkout_items@;
                let len = cur_len as int;
                assert forall|i: int| 0 <= i < its.len() implies (#[trigger] its[i]).checkout_id <= c by {
                    if i < len {
                        assert(its[i] == before[i]);
                    }
                }
                assert forall|j: int| 0 <= j < len implies its[j] == before[j] by {}
                assert forall|c2: int| 0 <= c2 < c implies (#[trigger] self.checkouts@[c2]).total_amount
                    == locked_sum(its, item_positions(its, c2 as usize, its.len() as int)) by {
                    lemma_positions_prefix(its, before, c2 as usize, len);
                    lemma_positions_bounded(before, c2 as usize, len);
                    lemma_locked_sum_prefix(before, its, item_positions(before, c2 as usize, len));
                }
                lemma_positions_prefix(its, before, c, len);
                lemma_positions_bounded(before, c, len);
                lemma_locked_sum_prefix(before, its, item_positions(before, c, len));
                let pc = item_positions(before, c, len);
                assert(item_positions(its, c, len + 1) == pc.push(cur_len));
                assert(pc.push(cur_len).drop_last() =~= pc);
                assert(ids@.subrange(0, t + 1).drop_last() =~= ids@.subrange(0, t as int));
                assert(its[len].locked_price == old(self).listings@[ids@[t as int] as int].price);
                let pn = pc.push(cur_len);
                assert(pn.len() > 0);
                assert(pn.last() == cur_len);
                assert(pn.drop_last() == pc);
                assert(locked_sum(its, pn) == locked_sum(its, pn.drop_last()) + its[pn.last() as int].locked_price);
                assert(locked_sum(its, pn) == locked_sum(its, pc) + its[len].locked_price);
                let sn = ids@.subrange(0, t + 1);
                assert(sn.len() > 0);
                assert(sn.last() == ids@[t as int]);
                assert(price_sum(old(self).listings@, sn) == price_sum(old(self).listings@, sn.drop_last())
                    + old(self).listings@[sn.last() as int].price);
                assert(price_sum(old(self).listings@, ids@.subrange(0, t + 1)) == price_sum(
                    old(self).listings@,
                    ids@.subrange(0, t as int),
                ) + old(self).listings@[ids@[t as int] as int].price);
                assert forall|q: int| 0 <= q < t + 1 implies locks(
                    #[trigger] self.checkout_items@[k + q],
                    old(self).listings@,
                    c,
                    ids@[q],
                ) by {
                    if q < t {
                        assert(self.checkout_items@[k + q] == before[k + q]);
                    }
                }
            }
            t = t + 1;
        }
        let session = CheckoutSession {
            id: new_record_id(),
            user,
            status: CheckoutStatus::Pending,
            total_amount: total,
            fee_amount: fee,
            created_at: now,
            expires_at: add_hours(now, price_lock_hours),
            paid_at: None,
        };
        self.checkouts.push(session);
        proof {
            let nu = self.users@.len() as int;
            assert forall|q: int| 0 <= q < self.checkouts@.len() implies {
                &&& (#[trigger] self.checkouts@[q]).user < nu
                &&& self.checkouts@[q].total_amount >= 0
                &&& self.checkouts@[q].fee_amount >= 0
            } by {
                if q < c {
                    assert(self.checkouts@[q] == old(self).checkouts@[q]);
                }
            }
            assert(checkouts_wf(self.checkouts@, nu));
            assert(ids@.subrange(0, ids@.len() as int) =~= ids@);
            let its = self.checkout_items@;
            assert forall|c2: int| 0 <= c2 < self.checkouts@.len() implies (#[trigger] self.checkouts@[c2]).total_amount
                == locked_sum(its, item_positions(its, c2 as usize, its.len() as int)) by {
                if c2 < c {
                    assert(self.checkouts@[c2] == old(self).checkouts@[c2]);
                }
            }
            assert(sessions_match(self.checkouts@, its));
        }
        Ok(c)
    }
}

/// How a checkout is paid.
#[derive(Debug, Clone, Copy, PartialEq, Eq, Structural)]
pub enum Payment {
    /// From the buyer's wallet.
    Wallet,
    /// With a token the payment processor already accepted for `amount`; it is credited to
    /// the buyer's wallet as a deposit, which then pays, so any surplus stays there.
    Token { amount: u64 },
}

/// Positions, among the first `n` checkout items, of those locked for checkout `c`.
pub open spec fn item_positions(items: Seq<CheckoutItem>, c: usize, n: int) -> Seq<usize>
    decreases n,
{
    if n <= 0 {
        Seq::empty()
    } else {
        let rest = item_positions(items, c, n - 1);
        if items[n - 1].checkout_id == c {
            rest.push((n - 1) as usize)
        } else {
            rest
        }
    }
}

/// Sum of the locked prices of the items at `pos`.
pub open spec fn locked_sum(items: Seq<CheckoutItem>, pos: Seq<usize>) -> int
    decreases pos.len(),
{
    if pos.len() == 0 {
        0
    } else {
        locked_sum(items, pos.drop_last()) + items[pos.last() as int].locked_price
    }
}

/// The entries of `cart`, in order, that do not belong to `user`.
pub open spec fn cart_without(cart: Seq<CartItem>, user: usize) -> Seq<CartItem>
    decreases cart.len(),
{
    if cart.len() == 0 {
        cart
    } else {
        let rest = cart_without(cart.drop_last(), user);
        if cart.last().user == user {
            rest
        } else {
            rest.push(cart.last())
        }
    }
}

proof fn lemma_positions_bounded(items: Seq<CheckoutItem>, c: usize, n: int)
    ensures
        forall|t: int|
            0 <= t < item_positions(items, c, n).len() ==> #[trigger] item_positions(items, c, n)[t] < n,
    decreases n,
{
    if n > 0 {
        lemma_positions_bounded(items, c, n - 1);
        let rest = item_positions(items, c, n - 1);
        assert forall|t: int|
            0 <= t < item_positions(items, c, n).len() implies #[trigger] item_positions(items, c, n)[t] < n by {
            if t < rest.len() {
                assert(item_positions(items, c, n)[t] == rest[t]);
            }
        }
    }
}

proof fn lemma_positions_prefix(a: Seq<CheckoutItem>, b: Seq<CheckoutItem>, c: usize, n: int)
    requires
        n <= a.len(),
        n <= b.len(),
        forall|j: int| 0 <= j < n ==> a[j] == b[j],
    ensures
        item_positions(a, c, n) == item_positions(b, c, n),
    decreases n,
{
    if n > 0 {
        lemma_positions_prefix(a, b, c, n - 1);
    }
}

proof fn lemma_positions_none(items: Seq<CheckoutItem>, c: usize, n: int)
    requires
        n <= items.len(),
        forall|j: int| 0 <= j < n ==> items[j].checkout_id != c,
    ensures
        item_positions(items, c, n) == Seq::<usize>::empty(),
    decreases n,
{
    if n > 0 {
        lemma_positions_none(items, c, n - 1);
    }
}

proof fn lemma_locked_sum_prefix(a: Seq<CheckoutItem>, b: Seq<CheckoutItem>, pos: Seq<usize>)
    requires
        a.len() <= b.len(),
        forall|j: int| 0 <= j < a.len() ==> a[j] == b[j],
        forall|t: int| 0 <= t < pos.len() ==> #[trigger] pos[t] < a.len(),
    ensures
        locked_sum(a, pos) == locked_sum(b, pos),
    decreases pos.len(),
{
    if pos.len() > 0 {
        lemma_locked_sum_prefix(a, b, pos.drop_last());
    }
}

/// Each done item `q` has its order item at `oi_of[q]`, in the order of its escrow.
spec fn placed(
    its: Seq<OrderItem>,
    oi0: int,
    oi_of: Seq<int>,
    done: Seq<bool>,
    items: Seq<CheckoutItem>,
    pos: Seq<usize>,
    owner: Seq<int>,
    o0: int,
    e0: int,
) -> bool {
    forall|q: int|
        0 <= q < done.len() && done[q] ==> oi0 <= #[trigger] oi_of[q] < its.len() && records_at(
            its[oi_of[q]],
            items[pos[q] as int],
            o0 + owner[q] - e0,
        )
}

/// Each order item from `oi0` on records the done item `q_of[j - oi0]`.
spec fn sourced(
    its: Seq<OrderItem>,
    oi0: int,
    q_of: Seq<int>,
    done: Seq<bool>,
    items: Seq<CheckoutItem>,
    pos: Seq<usize>,
    owner: Seq<int>,
    o0: int,
    e0: int,
) -> bool {
    &&& q_of.len() == its.len() - oi0
    &&& forall|t: int|
        0 <= t < q_of.len() ==> 0 <= #[trigger] q_of[t] < done.len() && done[q_of[t]] && records_at(
            its[oi0 + t],
            items[pos[q_of[t]] as int],
            o0 + owner[q_of[t]] - e0,
        )
}

proof fn lemma_sourced_push(
    its: Seq<OrderItem>,
    x: OrderItem,
    oi0: int,
    q_of: Seq<int>,
    done: Seq<bool>,
    h: int,
    items: Seq<CheckoutItem>,
    pos: Seq<usize>,
    owner: Seq<int>,
    o0: int,
    e0: int,
    next: int,
)
    requires
        sourced(its, oi0, q_of, done, items, pos, owner, o0, e0),
        0 <= h < done.len(),
        owner.len() == done.len(),
        !done[h],
        0 <= oi0 <= its.len(),
        records_at(x, items[pos[h] as int], o0 + next - e0),
    ensures
        sourced(
            its.push(x),
            oi0,
            q_of.push(h),
            done.update(h, true),
            items,
            pos,
            owner.update(h, next),
            o0,
            e0,
        ),
{
    assert(q_of.len() == its.len() - oi0);
    let its2 = its.push(x);
    let q2 = q_of.push(h);
    let d2 = done.update(h, true);
    let w2 = owner.update(h, next);
    assert forall|t: int| 0 <= t < q2.len() implies 0 <= #[trigger] q2[t] < d2.len() && d2[q2[t]]
        && records_at(its2[oi0 + t], items[pos[q2[t]] as int], o0 + w2[q2[t]] - e0) by {
        if t < q_of.len() {
            let q = q_of[t];
            assert(q2[t] == q);
            assert(its2[oi0 + t] == its[oi0 + t]);
            assert(q != h);
            assert(w2[q] == owner[q]);
        } else {
            assert(q2[t] == h);
            assert(its2[oi0 + t] == x);
            assert(w2[h] == next);
        }
    }
    assert(q2.len() == its2.len() - oi0);
}

proof fn lemma_order_items_cover(
    its: Seq<OrderItem>,
    oi0: int,
    oi_of: Seq<int>,
    q_of: Seq<int>,
    done: Seq<bool>,
    items: Seq<CheckoutItem>,
    pos: Seq<usize>,
    owner: Seq<int>,
    sellers: Seq<usize>,
    ords: Seq<Order>,
    es: Seq<Escrow>,
    o0: int,
    e0: int,
)
    requires
        0 <= oi0 <= its.len(),
        0 <= o0 <= ords.len(),
        0 <= e0 <= es.len(),
        ords.len() - o0 == es.len() - e0,
        done.len() == pos.len(),
        sellers.len() == pos.len(),
        forall|q: int| 0 <= q < done.len() ==> #[trigger] done[q],
        placed(its, oi0, oi_of, done, items, pos, owner, o0, e0),
        sourced(its, oi0, q_of, done, items, pos, owner, o0, e0),
        forall|q: int|
            0 <= q < done.len() && #[trigger] done[q] ==> e0 <= owner[q] < es.len() && es[owner[q]].seller
                == sellers[q],
        forall|q: int| 0 <= q < pos.len() ==> #[trigger] sellers[q] == items[pos[q] as int].seller,
        forall|i: int|
            o0 <= i < ords.len() ==> (#[trigger] ords[i]).seller == es[e0 + (i - o0)].seller,
    ensures
        forall|q: int|
            0 <= q < pos.len() ==> recorded_in(its, oi0, items[#[trigger] pos[q] as int], ords, o0),
        forall|j: int| oi0 <= j < its.len() ==> from_items(#[trigger] its[j], items, pos, ords, o0),
{
    assert forall|q: int| 0 <= q < pos.len() implies recorded_in(its, oi0, items[#[trigger] pos[q] as int], ords, o0) by {
        assert(done[q]);
        let j = oi_of[q];
        let i = o0 + owner[q] - e0;
        assert(ords[i].seller == es[e0 + (i - o0)].seller);
        assert(sellers[q] == items[pos[q] as int].seller);
        assert(records_item(its[j], items[pos[q] as int], ords, o0));
    }
    assert forall|j: int| oi0 <= j < its.len() implies from_items(#[trigger] its[j], items, pos, ords, o0) by {
        let t = j - oi0;
        let q = q_of[t];
        assert(0 <= q < done.len());
        assert(oi0 + t == j);
        let i = o0 + owner[q] - e0;
        assert(ords[i].seller == es[e0 + (i - o0)].seller);
        assert(sellers[q] == items[pos[q] as int].seller);
        assert(records_item(its[j], items[pos[q] as int], ords, o0));
    }
}

proof fn lemma_count_undone(ones: Seq<int>, done: Seq<bool>, n: int)
    requires
        0 <= n <= done.len(),
        n <= ones.len(),
        forall|q: int| 0 <= q < ones.len() ==> #[trigger] ones[q] == 1,
        forall|q: int| 0 <= q < done.len() ==> !(#[trigger] done[q]),
    ensures
        undone_sum(ones, done, n) == n,
    decreases n,
{
    if n > 0 {
        lemma_count_undone(ones, done, n - 1);
    }
}

/// Sum of the prices not yet marked done among the first `n`.
pub open spec fn undone_sum(prices: Seq<int>, done: Seq<bool>, n: int) -> int
    decreases n,
{
    if n <= 0 {
        0
    } else {
        undone_sum(prices, done, n - 1) + if done[n - 1] {
            0
        } else {
            prices[n - 1]
        }
    }
}

proof fn lemma_mark_done(prices: Seq<int>, done: Seq<bool>, h: int, n: int)
    requires
        0 <= h < done.len(),
        n <= done.len(),
        !done[h],
    ensures
        undone_sum(prices, done.update(h, true), n) == undone_sum(prices, done, n) - if h < n {
            prices[h]
        } else {
            0
        },
    decreases n,
{
    if n > 0 {
        lemma_mark_done(prices, done, h, n - 1);
    }
}

proof fn lemma_undone_nonneg(prices: Seq<int>, done: Seq<bool>, n: int)
    requires
        n <= prices.len(),
        forall|q: int| 0 <= q < prices.len() ==> #[trigger] prices[q] > 0,
    ensures
        undone_sum(prices, done, n) >= 0,
    decreases n,
{
    if n > 0 {
        lemma_undone_nonneg(prices, done, n - 1);
    }
}

proof fn lemma_all_undone(prices: Seq<int>, done: Seq<bool>, pos: Seq<usize>, items: Seq<CheckoutItem>, n: int)
    requires
        0 <= n <= pos.len(),
        done.len() == pos.len(),
        prices.len() == pos.len(),
        forall|q: int| 0 <= q < pos.len() ==> !(#[trigger] done[q]),
        forall|q: int| 0 <= q < pos.len() ==> #[trigger] prices[q] == items[pos[q] as int].locked_price,
    ensures
        undone_sum(prices, done, n) == locked_sum(items, pos.subrange(0, n)),
    decreases n,
{
    if n > 0 {
        lemma_all_undone(prices, done, pos, items, n - 1);
        assert(pos.subrange(0, n).drop_last() =~= pos.subrange(0, n - 1));
    }
}

impl Market {
    /// Positions of the items locked for checkout `c`, and the sum of their prices.
    fn session_items(&self, c: usize) -> (r: (Vec<usize>, Option<i64>))
        requires
            self.wf(),
        ensures
            r.0@ == item_positions(self.checkout_items@, c, self.checkout_items@.len() as int),
            forall|q: int| 0 <= q < r.0@.len() ==> #[trigger] r.0@[q] < self.checkout_items@.len(),
            r.1 == if locked_sum(self.checkout_items@, r.0@) <= i64::MAX {
                Some(locked_sum(self.checkout_items@, r.0@) as i64)
            } else {
                None::<i64>
            },
            locked_sum(self.checkout_items@, r.0@) >= 0,
    {
        let n = self.checkout_items.len();
        let mut pos: Vec<usize> = Vec::new();
        let mut sum: i64 = 0;
        let mut overflow = false;
        let mut q: usize = 0;
        while q < n
            invariant
                self.wf(),
                n == self.checkout_items@.len(),
                q <= n,
                pos@ == item_positions(self.checkout_items@, c, q as int),
                forall|t: int| 0 <= t < pos@.len() ==> #[trigger] pos@[t] < q,
                !overflow ==> sum == locked_sum(self.checkout_items@, pos@),
                overflow ==> locked_sum(self.checkout_items@, pos@) > i64::MAX,
                locked_sum(self.checkout_items@, pos@) >= 0,
            decreases n - q,
        {
            if self.checkout_items[q].checkout_id == c {
                let ghost before = pos@;
                pos.push(q);
                assert(pos@.drop_last() == before);
                if !overflow {
                    match sum.checked_add(self.checkout_items[q].locked_price) {
                        Some(t) => {
                            sum = t;
                        },
                        None => {
                            overflow = true;
                        },
                    }
                }
            }
            q = q + 1;
        }
        if overflow {
            (pos, None)
        } else {
            (pos, Some(sum))
        }
    }

    /// Empties `user`'s cart.
    fn clear_cart(&mut self, user: usize)
        requires
            old(self).wf(),
        ensures
            final(self).wf(),
            final(self).cart_items@ == cart_without(old(self).cart_items@, user),
            final(self).users@ == old(self).users@,
            final(self).listings@ == old(self).listings@,
            final(self).checkouts@ == old(self).checkouts@,
            final(self).checkout_items@ == old(self).checkout_items@,
            final(self).escrows@ == old(self).escrows@,
            final(self).orders@ == old(self).orders@,
            final(self).order_items@ == old(self).order_items@,
            final(self).disputes@ == old(self).disputes@,
            final(self).evidence@ == old(self).evidence@,
    {
        let n = self.cart_items.len();
        let mut kept: Vec<CartItem> = Vec::new();
        let mut i: usize = 0;
        while i < n
            invariant
                n == self.cart_items@.len(),
                i <= n,
                self.wf(),
                self.unchanged(old(self)),
                kept@ == cart_without(self.cart_items@.subrange(0, i as int), user),
                forall|t: int| 0 <= t < kept@.len() ==> {
                    &&& (#[trigger] kept@[t]).user < self.users@.len()
                    &&& kept@[t].listing_id < self.listings@.len()
                },
            decreases n - i,
        {
            let ghost pre = self.cart_items@.subrange(0, i as int);
            assert(self.cart_items@.subrange(0, i + 1).drop_last() =~= pre);
            if self.cart_items[i].user != user {
                let x = CartItem {
                    id: self.cart_items[i].id.clone(),
                    user: self.cart_items[i].user,
                    listing_id: self.cart_items[i].listing_id,
                    added_at: self.cart_items[i].added_at,
                };
                assert(x == self.cart_items@[i as int]);
                kept.push(x);
            }
            i = i + 1;
        }
        assert(self.cart_items@.subrange(0, n as int) =~= self.cart_items@);
        self.cart_items = kept;
    }
}

/// Sum of the locked prices, among the first `n` items at `pos`, of those sold by `seller`.
pub open spec fn seller_total(items: Seq<CheckoutItem>, pos: Seq<usize>, seller: usize, n: int) -> int
    decreases n,
{
    if n <= 0 {
        0
    } else {
        seller_total(items, pos, seller, n - 1) + if items[pos[n - 1] as int].seller == seller {
            items[pos[n - 1] as int].locked_price as int
        } else {
            0
        }
    }
}

proof fn lemma_seller_total_zero(items: Seq<CheckoutItem>, pos: Seq<usize>, seller: usize, n: int)
    requires
        forall|q: int| 0 <= q < n ==> items[#[trigger] pos[q] as int].seller != seller,
    ensures
        seller_total(items, pos, seller, n) == 0,
    decreases n,
{
    if n > 0 {
        lemma_seller_total_zero(items, pos, seller, n - 1);
    }
}

/// `x` records checkout item `it` in the order at `order`, at its locked price.
pub open spec fn records_at(x: OrderItem, it: CheckoutItem, order: int) -> bool {
    &&& x.listing_id == it.listing_id
    &&& x.price == it.locked_price
    &&& x.order_id == order
}

/// `x` records checkout item `it` in one of the orders from `o0` on, an order of the
/// item's seller.
pub open spec fn records_item(x: OrderItem, it: CheckoutItem, orders: Seq<Order>, o0: int) -> bool {
    &&& x.listing_id == it.listing_id
    &&& x.price == it.locked_price
    &&& o0 <= x.order_id < orders.len()
    &&& orders[x.order_id as int].seller == it.seller
}

/// Checkout item `it` is recorded by some order item from `oi0` on.
pub open spec fn recorded_in(its: Seq<OrderItem>, oi0: int, it: CheckoutItem, orders: Seq<Order>, o0: int) -> bool {
    exists|j: int| oi0 <= j < its.len() && #[trigger] records_item(its[j], it, orders, o0)
}

/// Order item `x` records one of the checkout items at `pos`.
pub open spec fn from_items(
    x: OrderItem,
    items: Seq<CheckoutItem>,
    pos: Seq<usize>,
    orders: Seq<Order>,
    o0: int,
) -> bool {
    exists|q: int| 0 <= q < pos.len() && #[trigger] records_item(x, items[pos[q] as int], orders, o0)
}

/// `x` is the row that took the amount of escrow `e` from its buyer at `now`.
pub open spec fn hold_row(x: WalletTransaction, escrows: Seq<Escrow>, e: int, now: i64) -> bool {
    &&& x.transaction_type == TransactionType::EscrowHold
    &&& x.amount == -escrows[e].amount
    &&& x.reference_id == Some(e as usize)
    &&& x.created_at == now
}

/// `log` is `log0` followed by one hold row per escrow from `e0` on, in order.
pub open spec fn hold_rows(
    log0: Seq<WalletTransaction>,
    log: Seq<WalletTransaction>,
    escrows: Seq<Escrow>,
    e0: int,
    now: i64,
) -> bool {
    &&& log.len() == log0.len() + (escrows.len() - e0)
    &&& log.subrange(0, log0.len() as int) == log0
    &&& forall|j: int|
        log0.len() <= j < log.len() ==> hold_row(#[trigger] log[j], escrows, e0 + (j - log0.len()), now)
}

/// Whether `payment` deposits anything in the buyer's wallet.
pub open spec fn deposits(payment: Payment) -> bool {
    match payment {
        Payment::Wallet => false,
        Payment::Token { amount } => amount > 0,
    }
}

/// `log` is `log0` followed by the deposit of the token paid with `payment` (if any) and
/// then the fee (if any), both made at `now`.
pub open spec fn paid_rows(
    log0: Seq<WalletTransaction>,
    log: Seq<WalletTransaction>,
    payment: Payment,
    fee: i64,
    now: i64,
) -> bool {
    let d: int = if deposits(payment) {
        1
    } else {
        0
    };
    let f: int = if fee > 0 {
        1
    } else {
        0
    };
    let n0 = log0.len() as int;
    &&& log.len() == n0 + d + f
    &&& log.subrange(0, n0) == log0
    &&& deposits(payment) ==> {
        &&& log[n0].transaction_type == TransactionType::Deposit
        &&& log[n0].amount == paid_in(payment)
        &&& log[n0].reference_id is None
        &&& log[n0].created_at == now
    }
    &&& fee > 0 ==> {
        &&& log[n0 + d].transaction_type == TransactionType::Fee
        &&& log[n0 + d].amount == -fee
        &&& log[n0 + d].reference_id is None
        &&& log[n0 + d].created_at == now
    }
}

/// `log` is the buyer's log `log0` after a checkout paid with `payment` and `fee` whose
/// escrows start at `e0`: the deposit of the token (if any), then the fee (if any), then one
/// hold row per escrow.
pub open spec fn checkout_rows(
    log0: Seq<WalletTransaction>,
    log: Seq<WalletTransaction>,
    payment: Payment,
    fee: i64,
    escrows: Seq<Escrow>,
    e0: int,
    now: i64,
) -> bool {
    let n = log0.len() + (if deposits(payment) {
        1int
    } else {
        0int
    }) + (if fee > 0 {
        1int
    } else {
        0int
    });
    &&& log.len() >= n
    &&& paid_rows(log0, log.subrange(0, n), payment, fee, now)
    &&& hold_rows(log.subrange(0, n), log, escrows, e0, now)
}

/// Sum of the amounts of the escrows at positions `from` up to `n`.
pub open spec fn amounts_from(es: Seq<Escrow>, from: int, n: int) -> int
    decreases n - from,
{
    if n <= from {
        0
    } else {
        amounts_from(es, from, n - 1) + es[n - 1].amount
    }
}

/// Whether `payment` brings in enough, on a wallet of `balance`, to pay `due`.
pub open spec fn covers(payment: Payment, balance: int, due: int) -> bool {
    match payment {
        Payment::Wallet => balance >= due,
        Payment::Token { amount } => amount >= due && balance + amount <= i64::MAX,
    }
}

/// What `payment` adds to the buyer's wallet before paying.
pub open spec fn paid_in(payment: Payment) -> int {
    match payment {
        Payment::Wallet => 0,
        Payment::Token { amount } => amount as int,
    }
}

proof fn lemma_all_done(prices: Seq<int>, done: Seq<bool>, n: int)
    requires
        0 <= n <= done.len(),
        forall|q: int| 0 <= q < n ==> #[trigger] done[q],
    ensures
        undone_sum(prices, done, n) == 0,
    decreases n,
{
    if n > 0 {
        lemma_all_done(prices, done, n - 1);
    }
}

proof fn lemma_amounts_prefix(a: Seq<Escrow>, b: Seq<Escrow>, from: int, n: int)
    requires
        0 <= from,
        n <= a.len(),
        n <= b.len(),
        forall|j: int| 0 <= j < n ==> a[j] == b[j],
    ensures
        amounts_from(a, from, n) == amounts_from(b, from, n),
    decreases n - from,
{
    if n > from {
        lemma_amounts_prefix(a, b, from, n - 1);
    }
}

impl Market {
    /// Credits the token of `payment` (if any) to `buyer` and takes `fee` from their wallet.
    fn pay_in(&mut self, buyer: usize, payment: Payment, fee: i64, now: i64)
        requires
            old(self).wf(),
            buyer < old(self).users@.len(),
            fee >= 0,
            old(self).users@[buyer as int].wallet_balance + paid_in(payment) <= i64::MAX,
            old(self).users@[buyer as int].wallet_balance + paid_in(payment) >= fee,
        ensures
            final(self).wf(),
            final(self).same_but_users(old(self)),
            final(self).users@.len() == old(self).users@.len(),
            final(self).users@[buyer as int].wallet_balance == old(self).users@[buyer as int].wallet_balance
                + paid_in(payment) - fee,
            forall|u: int|
                0 <= u < old(self).users@.len() && u != buyer ==> #[trigger] final(self).users@[u]
                    == old(self).users@[u],
            paid_rows(
                old(self).users@[buyer as int].transactions@,
                final(self).users@[buyer as int].transactions@,
                payment,
                fee,
                now,
            ),
    {
        let ghost log0 = self.users@[buyer as int].transactions@;
        match payment {
            Payment::Wallet => {},
            Payment::Token { amount } => {
                if amount > 0 {
                    let _ = self.credit_wallet(buyer, amount as i64, TransactionType::Deposit, None, now);
                }
            },
        }
        let ghost log1 = self.users@[buyer as int].transactions@;
        proof {
            assert(log1.subrange(0, log0.len() as int) =~= log0);
        }
        if fee > 0 {
            let _ = self.deduct_wallet(buyer, fee, TransactionType::Fee, None, now);
        }
        proof {
            let log2 = self.users@[buyer as int].transactions@;
            if fee > 0 {
                assert(log2.drop_last() == log1);
                assert(log2.subrange(0, log0.len() as int) =~= log1.subrange(0, log0.len() as int));
                if deposits(payment) {
                    assert(log2[log0.len() as int] == log1[log0.len() as int]);
                }
            }
        }
    }

    /// Pays checkout `checkout_id` and fans it out. The session must be pending with its
    /// price lock holding at `now`. What is due is its total (the locked prices of its
    /// items) plus its fee; `payment` must cover it. The buyer's wallet pays the fee, the session becomes
    /// paid, and for each seller among the items, in order of first appearance, one escrow
    /// takes that seller's subtotal from the buyer for `escrow_days` days and one pending
    /// order is bound to it. The buyer's cart is then emptied. Returns the new orders.
    /// All or nothing.
    #[verifier::rlimit(100)]
    pub fn complete_checkout(
        &mut self,
        checkout_id: usize,
        payment: Payment,
        escrow_days: u32,
        now: i64,
    ) -> (r: Result<Vec<usize>, AppError>)
        requires
            old(self).wf(),
        ensures
            final(self).wf(),
            ({
                let s = old(self).checkouts@[checkout_id as int];
                let buyer = s.user;
                let pos = item_positions(
                    old(self).checkout_items@,
                    checkout_id,
                    old(self).checkout_items@.len() as int,
                );
                let subtotal = s.total_amount as int;
                let due = subtotal + s.fee_amount;
                let balance = old(self).users@[buyer as int].wallet_balance as int;
                let live = checkout_id < old(self).checkouts@.len() && s.status
                    == CheckoutStatus::Pending && s.expires_at > now;
                let e0 = old(self).escrows@.len() as int;
                let o0 = old(self).orders@.len() as int;
                let oi0 = old(self).order_items@.len() as int;
                &&& r is Ok <==> live && due <= i64::MAX && covers(payment, balance, due)
                &&& r matches Err(e) ==> final(self).unchanged(old(self)) && e == (if !live {
                    AppError::PriceLockExpired
                } else if due > i64::MAX {
                    AppError::BalanceOverflow
                } else {
                    match payment {
                        Payment::Wallet => AppError::InsufficientBalanceDetails {
                            needed: due as u64,
                            available: balance as u64,
                        },
                        Payment::Token { amount } => if amount < due {
                            AppError::InsufficientBalanceDetails { needed: due as u64, available: amount }
                        } else {
                            AppError::BalanceOverflow
                        },
                    }
                })
                &&& r matches Ok(os) ==> {
                    &&& final(self).checkouts@ == old(self).checkouts@.update(
                        checkout_id as int,
                        CheckoutSession { status: CheckoutStatus::Paid, paid_at: Some(now), ..s },
                    )
                    &&& final(self).users@.len() == old(self).users@.len()
                    &&& final(self).users@[buyer as int].wallet_balance == balance + paid_in(payment) - due
                    &&& forall|u: int|
                        0 <= u < old(self).users@.len() && u != buyer ==> #[trigger] final(self).users@[u]
                            == old(self).users@[u]
                    &&& final(self).escrows@.subrange(0, e0) == old(self).escrows@
                    &&& amounts_from(final(self).escrows@, e0, final(self).escrows@.len() as int) == subtotal
                    &&& forall|j: int|
                        e0 <= j < final(self).escrows@.len() ==> {
                            &&& (#[trigger] final(self).escrows@[j]).buyer == buyer
                            &&& final(self).escrows@[j].status == EscrowStatus::Held
                            &&& final(self).escrows@[j].created_at == now
                            &&& final(self).escrows@[j].auto_release_at == after_days(now, escrow_days)
                        }
                    &&& forall|j1: int, j2: int|
                        e0 <= j1 < j2 < final(self).escrows@.len() ==> (#[trigger] final(self).escrows@[j1]).seller
                            != (#[trigger] final(self).escrows@[j2]).seller
                    &&& forall|j: int|
                        e0 <= j < final(self).escrows@.len() ==> (#[trigger] final(self).escrows@[j]).amount
                            == seller_total(
                            old(self).checkout_items@,
                            pos,
                            final(self).escrows@[j].seller,
                            pos.len() as int,
                        )
                    &&& forall|q: int|
                        0 <= q < pos.len() ==> exists|j: int|
                            e0 <= j < final(self).escrows@.len() && (#[trigger] final(self).escrows@[j]).seller
                                == old(self).checkout_items@[#[trigger] pos[q] as int].seller
                    &&& final(self).orders@.subrange(0, o0) == old(self).orders@
                    &&& os@.len() == final(self).orders@.len() - o0
                    &&& os@.len() == final(self).escrows@.len() - e0
                    &&& forall|j: int| 0 <= j < os@.len() ==> #[trigger] os@[j] == o0 + j
                    &&& forall|i: int|
                        o0 <= i < final(self).orders@.len() ==> {
                            &&& (#[trigger] final(self).orders@[i]).escrow_id == e0 + (i - o0)
                            &&& final(self).orders@[i].checkout_id == checkout_id
                            &&& final(self).orders@[i].buyer == buyer
                            &&& final(self).orders@[i].seller == final(self).escrows@[e0 + (i - o0)].seller
                            &&& final(self).orders@[i].status == OrderStatus::Pending
                            &&& final(self).orders@[i].created_at == now
                        }
                    &&& checkout_rows(
                        old(self).users@[buyer as int].transactions@,
                        final(self).users@[buyer as int].transactions@,
                        payment,
                        s.fee_amount,
                        final(self).escrows@,
                        e0,
                        now,
                    )
                    &&& final(self).order_items@.subrange(0, oi0) == old(self).order_items@
                    &&& final(self).order_items@.len() == oi0 + pos.len()
                    &&& forall|j: int|
                        oi0 <= j < final(self).order_items@.len() ==> from_items(
                            #[trigger] final(self).order_items@[j],
                            old(self).checkout_items@,
                            pos,
                            final(self).orders@,
                            o0,
                        )
                    &&& forall|q: int|
                        0 <= q < pos.len() ==> recorded_in(
                            final(self).order_items@,
                            oi0,
                            old(self).checkout_items@[#[trigger] pos[q] as int],
                            final(self).orders@,
                            o0,
                        )
                    &&& final(self).cart_items@ == cart_without(old(self).cart_items@, buyer)
                    &&& final(self).listings@ == old(self).listings@
                    &&& final(self).checkout_items@ == old(self).checkout_items@
                    &&& final(self).disputes@ == old(self).disputes@
                    &&& final(self).evidence@ == old(self).evidence@
                }
            }),
    {
        if checkout_id >= self.checkouts.len() || self.checkouts[checkout_id].status
            != CheckoutStatus::Pending || self.checkouts[checkout_id].expires_at <= now {
            return Err(AppError::PriceLockExpired);
        }
        let buyer = self.checkouts[checkout_id].user;
        let fee = self.checkouts[checkout_id].fee_amount;
        let (pos, sum) = self.session_items(checkout_id);
        assert(self.checkouts@[checkout_id as int].total_amount == locked_sum(self.checkout_items@, pos@));
        let subtotal = match sum {
            Some(t) => t,
            None => {
                return Err(AppError::BalanceOverflow);
            },
        };
        let due = match subtotal.checked_add(fee) {
            Some(d) => d,
            None => {
                return Err(AppError::BalanceOverflow);
            },
        };
        let balance = self.users[buyer].wallet_balance;
        match payment {
            Payment::Wallet => {
                if balance < due {
                    return Err(
                        AppError::InsufficientBalanceDetails {
                            needed: due as u64,
                            available: balance as u64,
                        },
                    );
                }
            },
            Payment::Token { amount } => {
                if (amount as i128) < (due as i128) {
                    return Err(
                        AppError::InsufficientBalanceDetails { needed: due as u64, available: amount },
                    );
                }
                if (balance as i128) + (amount as i128) > i64::MAX as i128 {
                    return Err(AppError::BalanceOverflow);
                }
            },
        }
        self.pay_in(buyer, payment, fee, now);
        self.checkouts[checkout_id].status = CheckoutStatus::Paid;
        self.checkouts[checkout_id].paid_at = Some(now);
        proof {
            let nu = self.users@.len() as int;
            assert forall|q: int| 0 <= q < self.checkouts@.len() implies {
                &&& (#[trigger] self.checkouts@[q]).user < nu
                &&& self.checkouts@[q].total_amount >= 0
                &&& self.checkouts@[q].fee_amount >= 0
            } by {
                assert(old(self).checkouts@[q].user < nu);
            }
            assert(checkouts_wf(self.checkouts@, nu));
        }
        let ghost start = *self;
        let ghost b0 = self.users@[buyer as int].wallet_balance as int;
        assert(b0 == balance + paid_in(payment) - fee);
        let k = pos.len();
        let ghost items = self.checkout_items@;
        let ghost prices = Seq::new(k as nat, |q: int| items[pos@[q] as int].locked_price as int);
        let ghost sellers = Seq::new(k as nat, |q: int| items[pos@[q] as int].seller);
        let mut done: Vec<bool> = Vec::new();
        let mut z: usize = 0;
        while z < k
            invariant
                z <= k,
                k == pos@.len(),
                done@.len() == z,
                forall|q: int| 0 <= q < z ==> !(#[trigger] done@[q]),
            decreases k - z,
        {
            done.push(false);
            z = z + 1;
        }
        proof {
            assert forall|q: int| 0 <= q < k implies #[trigger] prices[q] > 0 by {
                assert(items[pos@[q] as int].locked_price > 0);
            }
            assert forall|q: int| 0 <= q < k implies #[trigger] sellers[q] < self.users@.len() by {
                assert(items[pos@[q] as int].seller < self.users@.len());
            }
            lemma_all_undone(prices, done@, pos@, items, k as int);
            assert(pos@.subrange(0, k as int) =~= pos@);
        }
        let e0 = self.escrows.len();
        let o0 = self.orders.len();
        let oi0 = self.order_items.len();
        let ghost log_start = self.users@[buyer as int].transactions@;
        let ghost ones = Seq::new(k as nat, |q: int| 1int);
        let ghost mut oi_of: Seq<int> = Seq::new(k as nat, |q: int| 0int);
        let ghost mut q_of: Seq<int> = Seq::empty();
        proof {
            lemma_count_undone(ones, done@, k as int);
            assert(log_start.subrange(0, log_start.len() as int) =~= log_start);
        }
        let ghost mut owner: Seq<int> = Seq::new(k as nat, |q: int| 0int);
        let mut os: Vec<usize> = Vec::new();
        let mut g: usize = 0;
        while g < k
            invariant
                self.wf(),
                g <= k,
                k == pos@.len(),
                done@.len() == k,
                prices.len() == k,
                sellers.len() == k,
                forall|q: int| 0 <= q < k ==> #[trigger] pos@[q] < items.len(),
                forall|q: int| 0 <= q < k ==> #[trigger] sellers[q] == items[pos@[q] as int].seller,
                forall|q: int| 0 <= q < k ==> #[trigger] prices[q] == items[pos@[q] as int].locked_price,
                forall|q: int| 0 <= q < k ==> #[trigger] prices[q] > 0,
                forall|q: int| 0 <= q < k ==> #[trigger] sellers[q] < self.users@.len(),
                forall|q: int| 0 <= q < g ==> #[trigger] done@[q],
                buyer < self.users@.len(),
                self.users@.len() == start.users@.len(),
                forall|u: int|
                    0 <= u < start.users@.len() && u != buyer ==> #[trigger] self.users@[u]
                        == start.users@[u],
                self.users@[buyer as int].wallet_balance == b0 - subtotal + undone_sum(
                    prices,
                    done@,
                    k as int,
                ),
                b0 >= subtotal,
                undone_sum(prices, done@, k as int) >= 0,
                undone_sum(prices, done@, k as int) <= subtotal,
                amounts_from(self.escrows@, e0 as int, self.escrows@.len() as int) == subtotal
                    - undone_sum(prices, done@, k as int),
                e0 <= self.escrows@.len(),
                self.escrows@.subrange(0, e0 as int) == start.escrows@,
                forall|j: int|
                    e0 <= j < self.escrows@.len() ==> {
                        &&& (#[trigger] self.escrows@[j]).buyer == buyer
                        &&& self.escrows@[j].status == EscrowStatus::Held
                        &&& self.escrows@[j].created_at == now
                        &&& self.escrows@[j].auto_release_at == after_days(now, escrow_days)
                    },
                forall|j: int, h: int|
                    e0 <= j < self.escrows@.len() && 0 <= h < k && sellers[h] == (#[trigger] self.escrows@[j]).seller
                        ==> #[trigger] done@[h],
                owner.len() == k,
                forall|q: int|
                    0 <= q < k && #[trigger] done@[q] ==> e0 <= owner[q] < self.escrows@.len()
                        && self.escrows@[owner[q]].seller == sellers[q],
                forall|j: int|
                    e0 <= j < self.escrows@.len() ==> (#[trigger] self.escrows@[j]).amount == seller_total(
                        items,
                        pos@,
                        self.escrows@[j].seller,
                        k as int,
                    ),
                forall|j1: int, j2: int|
                    e0 <= j1 < j2 < self.escrows@.len() ==> (#[trigger] self.escrows@[j1]).seller
                        != (#[trigger] self.escrows@[j2]).seller,
                o0 <= self.orders@.len(),
                self.orders@.subrange(0, o0 as int) == start.orders@,
                os@.len() == self.orders@.len() - o0,
                os@.len() == self.escrows@.len() - e0,
                forall|j: int| 0 <= j < os@.len() ==> #[trigger] os@[j] == o0 + j,
                forall|i: int|
                    o0 <= i < self.orders@.len() ==> {
                        &&& (#[trigger] self.orders@[i]).escrow_id == e0 + (i - o0)
                        &&& self.orders@[i].checkout_id == checkout_id
                        &&& self.orders@[i].buyer == buyer
                        &&& self.orders@[i].seller == self.escrows@[e0 + (i - o0)].seller
                        &&& self.orders@[i].status == OrderStatus::Pending
                        &&& self.orders@[i].created_at == now
                    },
                self.checkouts@ == start.checkouts@,
                self.checkout_items@ == items,
                self.listings@ == start.listings@,
                self.cart_items@ == start.cart_items@,
                self.disputes@ == start.disputes@,
                ones.len() == k,
                forall|q: int| 0 <= q < k ==> #[trigger] ones[q] == 1,
                oi0 == start.order_items@.len(),
                oi0 <= self.order_items@.len(),
                self.order_items@.subrange(0, oi0 as int) == start.order_items@,
                self.order_items@.len() - oi0 + undone_sum(ones, done@, k as int) == k,
                oi_of.len() == k,
                placed(self.order_items@, oi0 as int, oi_of, done@, items, pos@, owner, o0 as int, e0 as int),
                sourced(self.order_items@, oi0 as int, q_of, done@, items, pos@, owner, o0 as int, e0 as int),
                hold_rows(log_start, self.users@[buyer as int].transactions@, self.escrows@, e0 as int, now),
                self.evidence@ == start.evidence@,
            decreases k - g,
        {
            if !done[g] {
                let seller = self.checkout_items[pos[g]].seller;
                assert(seller == sellers[g as int]);
                let ghost done0 = done@;
                let ghost pre = *self;
                let ghost owner0 = owner;
                let ghost next = self.escrows@.len() as int;
                proof {
                    assert forall|q: int| 0 <= q < k && #[trigger] done0[q] implies sellers[q] != seller by {
                        if sellers[q] == seller {
                            let j = owner[q];
                            assert(self.escrows@[j].seller == sellers[g as int]);
                            assert(done0[g as int]);
                        }
                    }
                    assert forall|q: int| 0 <= q < g implies items[#[trigger] pos@[q] as int].seller != seller by {
                        assert(done0[q]);
                        assert(sellers[q] == items[pos@[q] as int].seller);
                    }
                    lemma_seller_total_zero(items, pos@, seller, g as int);
                }
                let o = self.orders.len();
                let mut acc: i64 = 0;
                let mut h: usize = g;
                while h < k
                    invariant
                        g <= h <= k,
                        k == pos@.len(),
                        done@.len() == k,
                        prices.len() == k,
                        sellers.len() == k,
                        forall|q: int| 0 <= q < k ==> #[trigger] pos@[q] < items.len(),
                        forall|q: int| 0 <= q < k ==> #[trigger] sellers[q] == items[pos@[q] as int].seller,
                        forall|q: int| 0 <= q < k ==> #[trigger] prices[q] == items[pos@[q] as int].locked_price,
                        forall|q: int| 0 <= q < k ==> #[trigger] prices[q] > 0,
                        self.checkout_items@ == items,
                        seller == sellers[g as int],
                        !done0[g as int],
                        forall|q: int| 0 <= q < k && done0[q] ==> #[trigger] done@[q],
                        forall|q: int| 0 <= q < g ==> #[trigger] done@[q],
                        forall|q: int| g <= q < h && sellers[q] == seller ==> #[trigger] done@[q],
                        forall|q: int| 0 <= q < k && !done0[q] && done@[q] ==> #[trigger] sellers[q] == seller,
                        undone_sum(prices, done@, k as int) + acc == undone_sum(prices, done0, k as int),
                        undone_sum(prices, done@, k as int) >= 0,
                        undone_sum(prices, done0, k as int) <= subtotal,
                        acc >= 0,
                        h > g ==> acc > 0,
                        forall|q: int| h <= q < k ==> #[trigger] done@[q] == done0[q],
                        forall|q: int| 0 <= q < k && #[trigger] done0[q] ==> sellers[q] != seller,
                        acc == seller_total(items, pos@, seller, h as int),
                        owner.len() == k,
                        forall|q: int| 0 <= q < k && done0[q] ==> #[trigger] owner[q] == owner0[q],
                        forall|q: int| 0 <= q < k && !done0[q] && #[trigger] done@[q] ==> owner[q] == next,
                        next == pre.escrows@.len(),
                        self.wf(),
                        self.users@ == pre.users@,
                        self.escrows@ == pre.escrows@,
                        self.orders@ == pre.orders@,
                        self.checkouts@ == pre.checkouts@,
                        self.listings@ == pre.listings@,
                        self.cart_items@ == pre.cart_items@,
                        self.disputes@ == pre.disputes@,
                        ones.len() == k,
                        forall|q: int| 0 <= q < k ==> #[trigger] ones[q] == 1,
                        oi0 <= self.order_items@.len(),
                        self.order_items@.subrange(0, oi0 as int) == start.order_items@,
                        self.order_items@.len() - oi0 + undone_sum(ones, done@, k as int) == k,
                        o == o0 + (next - e0),
                        oi_of.len() == k,
                        placed(self.order_items@, oi0 as int, oi_of, done@, items, pos@, owner, o0 as int, e0 as int),
                        sourced(self.order_items@, oi0 as int, q_of, done@, items, pos@, owner, o0 as int, e0 as int),
                        self.evidence@ == pre.evidence@,
                    decreases k - h,
                {
                    let q = pos[h];
                    if !done[h] && self.checkout_items[q].seller == seller {
                        let price = self.checkout_items[q].locked_price;
                        proof {
                            assert(prices[h as int] == price);
                            lemma_mark_done(prices, done@, h as int, k as int);
                            lemma_undone_nonneg(prices, done@.update(h as int, true), k as int);
                        }
                        acc = acc + price;
                        let ghost items_before = self.order_items@;
                        let ghost done_before = done@;
                        proof {
                            lemma_mark_done(ones, done_before.update(h as int, false), h as int, k as int);
                            assert(done_before.update(h as int, false) =~= done_before);
                        }
                        done.set(h, true);
                        let ghost owner_before = owner;
                        let ghost q_before = q_of;
                        proof {
                            owner = owner.update(h as int, next);
                            oi_of = oi_of.update(h as int, items_before.len() as int);
                            q_of = q_of.push(h as int);
                        }
                        self.order_items.push(
                            OrderItem {
                                id: new_record_id(),
                                order_id: o,
                                listing_id: self.checkout_items[q].listing_id,
                                price,
                                encrypted_shipping: None,
                                digital_content: None,
                            },
                        );
                        proof {
                            let its = self.order_items@;
                            assert(its.subrange(0, oi0 as int) =~= items_before.subrange(0, oi0 as int));
                            assert(done@ == done_before.update(h as int, true));
                            assert forall|q2: int|
                                0 <= q2 < done@.len() && done@[q2] implies oi0 <= #[trigger] oi_of[q2] < its.len()
                                    && records_at(its[oi_of[q2]], items[pos@[q2] as int], o0 + owner[q2] - e0) by {
                                if q2 != h {
                                    assert(done_before[q2]);
                                    assert(its[oi_of[q2]] == items_before[oi_of[q2]]);
                                }
                            }
                            lemma_sourced_push(
                                items_before,
                                its[its.len() - 1],
                                oi0 as int,
                                q_before,
                                done_before,
                                h as int,
                                items,
                                pos@,
                                owner_before,
                                o0 as int,
                                e0 as int,
                                next,
                            );
                            assert(its =~= items_before.push(its[its.len() - 1]));
                            assert(placed(its, oi0 as int, oi_of, done@, items, pos@, owner, o0 as int, e0 as int));
                            assert(q_of.len() == its.len() - oi0);
                            assert(sourced(its, oi0 as int, q_of, done@, items, pos@, owner, o0 as int, e0 as int));
                        }
                    }
                    h = h + 1;
                }
                proof {
                    lemma_undone_nonneg(prices, done@, k as int);
                }
                let e = match EscrowService::create_escrow(self, buyer, seller, acc, escrow_days, now) {
                    Ok(e) => e,
                    Err(err) => {
                        return Err(err);
                    },
                };
                let ghost mid = *self;
                proof {
                    let lg = self.users@[buyer as int].transactions@;
                    let lp = pre.users@[buyer as int].transactions@;
                    let n0 = log_start.len() as int;
                    assert(lg.drop_last() == lp);
                    assert(lg.subrange(0, n0) =~= lp.subrange(0, n0));
                    assert forall|j: int| n0 <= j < lg.len() implies hold_row(
                        #[trigger] lg[j],
                        self.escrows@,
                        e0 + (j - n0),
                        now,
                    ) by {
                        if j < lg.len() - 1 {
                            assert(lg[j] == lp[j]);
                            assert(self.escrows@[e0 + (j - n0)] == pre.escrows@[e0 + (j - n0)]);
                        }
                    }
                }
                let order = Order {
                    id: new_record_id(),
                    checkout_id,
                    buyer,
                    seller,
                    escrow_id: e,
                    status: OrderStatus::Pending,
                    tracking_info: None,
                    shipped_at: None,
                    completed_at: None,
                    created_at: now,
                };
                self.orders.push(order);
                let ghost os_before = os@;
                os.push(o);
                proof {
                    let nu = self.users@.len() as int;
                    let ne = self.escrows@.len() as int;
                    assert forall|i: int| 0 <= i < self.orders@.len() implies {
                        &&& (#[trigger] self.orders@[i]).escrow_id < ne
                        &&& self.orders@[i].buyer < nu
                        &&& self.orders@[i].seller < nu
                    } by {
                        if i < o {
                            assert(self.orders@[i] == mid.orders@[i]);
                        }
                    }
                    assert(orders_wf(self.orders@, nu, ne));
                    lemma_amounts_prefix(self.escrows@, pre.escrows@, e0 as int, e as int);
                    assert(self.escrows@.subrange(0, e0 as int) =~= pre.escrows@.subrange(0, e0 as int));
                    assert(self.orders@.subrange(0, o0 as int) =~= pre.orders@.subrange(0, o0 as int));
                    assert forall|j: int| 0 <= j < os@.len() implies #[trigger] os@[j] == o0 + j by {
                        if j < os@.len() - 1 {
                            assert(os@[j] == os_before[j]);
                        }
                    }
                    assert forall|i: int| o0 <= i < self.orders@.len() implies {
                        &&& (#[trigger] self.orders@[i]).escrow_id == e0 + (i - o0)
                        &&& self.orders@[i].checkout_id == checkout_id
                        &&& self.orders@[i].buyer == buyer
                        &&& self.orders@[i].seller == self.escrows@[e0 + (i - o0)].seller
                        &&& self.orders@[i].status == OrderStatus::Pending
                        &&& self.orders@[i].created_at == now
                    } by {
                        if i < o {
                            assert(self.orders@[i] == pre.orders@[i]);
                            assert(self.escrows@[e0 + (i - o0)] == pre.escrows@[e0 + (i - o0)]);
                        }
                    }
                    assert forall|j: int, hh: int|
                        e0 <= j < self.escrows@.len() && 0 <= hh < k && sellers[hh] == (
                        #[trigger] self.escrows@[j]).seller implies #[trigger] done@[hh] by {
                        if j < e {
                            assert(self.escrows@[j] == pre.escrows@[j]);
                            assert(done0[hh]);
                        }
                    }
                    assert forall|j1: int, j2: int|
                        e0 <= j1 < j2 < self.escrows@.len() implies (#[trigger] self.escrows@[j1]).seller
                        != (#[trigger] self.escrows@[j2]).seller by {
                        if j2 == e {
                            assert(self.escrows@[j1] == pre.escrows@[j1]);
                            if pre.escrows@[j1].seller == seller {
                                assert(done0[g as int]);
                            }
                        } else {
                            assert(self.escrows@[j1] == pre.escrows@[j1]);
                            assert(self.escrows@[j2] == pre.escrows@[j2]);
                        }
                    }
                    assert forall|q: int|
                        0 <= q < k && #[trigger] done@[q] implies e0 <= owner[q] < self.escrows@.len()
                            && self.escrows@[owner[q]].seller == sellers[q] by {
                        if done0[q] {
                            assert(pre.escrows@[owner0[q]] == self.escrows@[owner0[q]]);
                        }
                    }
                    assert forall|j: int|
                        e0 <= j < self.escrows@.len() implies (#[trigger] self.escrows@[j]).amount
                            == seller_total(items, pos@, self.escrows@[j].seller, k as int) by {
                        if j < e {
                            assert(self.escrows@[j] == pre.escrows@[j]);
                        }
                    }
                    assert forall|j: int| e0 <= j < self.escrows@.len() implies {
                        &&& (#[trigger] self.escrows@[j]).buyer == buyer
                        &&& self.escrows@[j].status == EscrowStatus::Held
                        &&& self.escrows@[j].created_at == now
                        &&& self.escrows@[j].auto_release_at == after_days(now, escrow_days)
                    } by {
                        if j < e {
                            assert(self.escrows@[j] == pre.escrows@[j]);
                        }
                    }
                }
            }
            g = g + 1;
        }
        proof {
            lemma_all_done(prices, done@, k as int);
            assert forall|q: int| 0 <= q < k implies exists|j: int|
                e0 <= j < self.escrows@.len() && (#[trigger] self.escrows@[j]).seller
                    == items[#[trigger] pos@[q] as int].seller by {
                assert(done@[q]);
                let j = owner[q];
                assert(self.escrows@[j].seller == items[pos@[q] as int].seller);
            }
        }
        proof {
            lemma_all_done(ones, done@, k as int);
            lemma_order_items_cover(
                self.order_items@,
                oi0 as int,
                oi_of,
                q_of,
                done@,
                items,
                pos@,
                owner,
                sellers,
                self.orders@,
                self.escrows@,
                o0 as int,
                e0 as int,
            );
        }
        proof {
            let lg = self.users@[buyer as int].transactions@;
            let n = log_start.len() as int;
            assert(lg.subrange(0, n) == log_start);
            assert(checkout_rows(
                old(self).users@[buyer as int].transactions@,
                lg,
                payment,
                fee,
                self.escrows@,
                e0 as int,
                now,
            ));
        }
        let ghost before_clear = *self;
        self.clear_cart(buyer);
        proof {
            assert(self.users@[buyer as int].wallet_balance == balance + paid_in(payment) - due);
            assert forall|u: int| 0 <= u < old(self).users@.len() && u != buyer implies #[trigger] self.users@[u]
                == old(self).users@[u] by {
                assert(start.users@[u] == old(self).users@[u]);
            }
            assert(self.checkouts@ =~= old(self).checkouts@.update(
                checkout_id as int,
                CheckoutSession { status: CheckoutStatus::Paid, paid_at: Some(now), ..old(self).checkouts@[checkout_id as int] },
            ));
            assert(self.escrows@.subrange(0, e0 as int) == old(self).escrows@);
            assert(self.orders@.subrange(0, o0 as int) == old(self).orders@);
            assert(self.cart_items@ == cart_without(old(self).cart_items@, buyer));
            assert(self.listings@ == old(self).listings@);
            assert(self.checkout_items@ == old(self).checkout_items@);
        }
        Ok(os)
    }
}

} // verus!
