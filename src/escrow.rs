//! Escrows: a buyer's payment held until delivery is confirmed, refunded, or adjudicated.

use vstd::prelude::*;

use crate::error::AppError;
use crate::market::{
    add_days, after_days, credit_step, escrows_wf, orders_wf, payout_fits, payout_logged,
    wallet_logged, Market,
};
use crate::order::{orders_settled, settled_order};
use crate::resolution::{lemma_resolution_conserves_amount, resolution_text, DisputeResolution};
use crate::ledger::WalletTransaction;
use crate::status::{EscrowStatus, OrderStatus, TransactionType};
use crate::sys::{new_record_id, now_seconds};

verus! {

/// Funds taken from a buyer and held for a seller.
#[derive(Debug, Clone)]
pub struct Escrow {
    pub id: String,
    pub buyer: usize,
    pub seller: usize,
    /// Positive, and never changed after creation.
    pub amount: i64,
    pub status: EscrowStatus,
    /// Fixed at creation: creation time plus the hold period.
    pub auto_release_at: i64,
    pub created_at: i64,
    pub resolved_at: Option<i64>,
}


/// `e` once released at `now`.
pub open spec fn released_escrow(e: Escrow, now: i64) -> Escrow {
    Escrow { status: EscrowStatus::Released, resolved_at: Some(now), ..e }
}

/// `e` once it reached the final `status` at `now`.
pub open spec fn closed_escrow(e: Escrow, status: EscrowStatus, now: i64) -> Escrow {
    Escrow { status: status, resolved_at: Some(now), ..e }
}

/// Held, and its hold period is over at `now`.
pub open spec fn is_due(e: Escrow, now: i64) -> bool {
    e.status == EscrowStatus::Held && e.auto_release_at <= now
}

impl Escrow {
    /// Only a held escrow can be released.
    pub fn can_release(&self) -> (r: bool)
        ensures
            r == (self.status == EscrowStatus::Held),
    {
        self.status == EscrowStatus::Held
    }

    /// A held escrow can be refunded.
    pub fn can_refund(&self) -> (r: bool)
        ensures
            r == (self.status == EscrowStatus::Held),
    {
        self.status == EscrowStatus::Held
    }

    /// Held and due for release at `now`.
    pub fn should_auto_release(&self, now: i64) -> (r: bool)
        ensures
            r == is_due(*self, now),
    {
        self.status == EscrowStatus::Held && self.auto_release_at <= now
    }

    /// Seconds until the automatic release at `now`, never below 0 (saturating at `i64::MAX`).
    pub fn time_until_release(&self, now: i64) -> (r: i64)
        ensures
            r == if self.auto_release_at - now <= 0 {
                0
            } else if self.auto_release_at - now > i64::MAX {
                i64::MAX as int
            } else {
                self.auto_release_at - now
            },
    {
        if self.auto_release_at > now {
            let d = (self.auto_release_at as i128) - (now as i128);
            if d > i64::MAX as i128 {
                i64::MAX
            } else {
                d as i64
            }
        } else {
            0
        }
    }
}


/// The escrow engine: the only place that moves escrowed funds.
pub struct EscrowService;

impl Market {
    /// Every table but the escrows and the orders is as in `other`, and the users are too.
    pub open spec fn same_but_escrows_orders(&self, other: &Market) -> bool {
        &&& self.users@ == other.users@
        &&& self.listings@ == other.listings@
        &&& self.cart_items@ == other.cart_items@
        &&& self.checkouts@ == other.checkouts@
        &&& self.checkout_items@ == other.checkout_items@
        &&& self.order_items@ == other.order_items@
        &&& self.disputes@ == other.disputes@
        &&& self.evidence@ == other.evidence@
        &&& self.seller_categories@ == other.seller_categories@
    }

    /// Sets every order bound to escrow `e` to `status`, stamping `completed_at` when given.
    fn settle_orders(&mut self, e: usize, status: OrderStatus, completed_at: Option<i64>)
        requires
            old(self).wf(),
        ensures
            final(self).wf(),
            orders_settled(old(self).orders@, final(self).orders@, e, status, completed_at),
            final(self).escrows@ == old(self).escrows@,
            final(self).same_but_escrows_orders(old(self)),
    {
        let n = self.orders.len();
        let mut i: usize = 0;
        while i < n
            invariant
                n == self.orders@.len(),
                n == old(self).orders@.len(),
                i <= n,
                old(self).wf(),
                self.escrows@ == old(self).escrows@,
                self.same_but_escrows_orders(old(self)),
                forall|j: int|
                    0 <= j < n ==> #[trigger] self.orders@[j] == if j < i
                        && old(self).orders@[j].escrow_id == e {
                        settled_order(old(self).orders@[j], status, completed_at)
                    } else {
                        old(self).orders@[j]
                    },
            decreases n - i,
        {
            if self.orders[i].escrow_id == e {
                let o = &mut self.orders[i];
                o.status = status;
                if completed_at.is_some() {
                    o.completed_at = completed_at;
                }
            }
            i = i + 1;
        }
        proof {
            let nu = self.users@.len() as int;
            let ne = self.escrows@.len() as int;
            assert forall|o: int| 0 <= o < n implies {
                &&& (#[trigger] self.orders@[o]).escrow_id < ne
                &&& self.orders@[o].buyer < nu
                &&& self.orders@[o].seller < nu
            } by {
                assert(old(self).orders@[o].escrow_id < ne);
            }
            assert(orders_wf(self.orders@, nu, ne));
        }
    }
}

/// Escrow `e` is disputed, `resolution` is valid, and paying its shares keeps the
/// balances in range.
pub open spec fn resolvable(m: Market, e: usize, resolution: DisputeResolution) -> bool {
    let x = m.escrows@[e as int];
    &&& e < m.escrows@.len()
    &&& x.status == EscrowStatus::Disputed
    &&& resolution.is_valid()
    &&& payout_fits(
        m.users@,
        x.buyer,
        resolution.buyer_share(x.amount as int),
        x.seller,
        resolution.seller_share(x.amount as int),
    )
}

/// `new` is `old` once disputed escrow `e` was settled by `resolution` at `now`: the buyer
/// got the buyer's share and the seller the seller's, each credit logged and referencing
/// `e`; the escrow is closed as refunded for `BuyerFull` and as released otherwise; its
/// orders are refunded or completed alike. Nothing else changed but, possibly, the disputes.
pub open spec fn settled_by(
    old: Market,
    new: Market,
    e: usize,
    resolution: DisputeResolution,
    now: i64,
) -> bool {
    let x = old.escrows@[e as int];
    let b = resolution.buyer_share(x.amount as int);
    let s = resolution.seller_share(x.amount as int);
    let refund = resolution == DisputeResolution::BuyerFull;
    &&& new.escrows@ == old.escrows@.update(
        e as int,
        closed_escrow(
            x,
            if refund {
                EscrowStatus::Refunded
            } else {
                EscrowStatus::Released
            },
            now,
        ),
    )
    &&& orders_settled(
        old.orders@,
        new.orders@,
        e,
        if refund {
            OrderStatus::Refunded
        } else {
            OrderStatus::Completed
        },
        Some(now),
    )
    &&& payout_logged(old.users@, new.users@, x.buyer, b, x.seller, s, e, now)
    &&& new.users@.len() == old.users@.len()
    &&& forall|u: int|
        0 <= u < old.users@.len() ==> #[trigger] new.users@[u].wallet_balance
            == old.users@[u].wallet_balance + (if u == x.buyer {
            b
        } else {
            0
        }) + (if u == x.seller {
            s
        } else {
            0
        })
    &&& new.listings@ == old.listings@
    &&& new.cart_items@ == old.cart_items@
    &&& new.checkouts@ == old.checkouts@
    &&& new.checkout_items@ == old.checkout_items@
    &&& new.order_items@ == old.order_items@
    &&& new.evidence@ == old.evidence@
}

impl EscrowService {
    /// Takes `amount` from `buyer` and holds it for `seller` until `escrow_days` days after
    /// `now`. All or nothing: without the debit no escrow is created. Returns the escrow.
    pub fn create_escrow(
        m: &mut Market,
        buyer: usize,
        seller: usize,
        amount: i64,
        escrow_days: u32,
        now: i64,
    ) -> (r: Result<usize, AppError>)
        requires
            old(m).wf(),
        ensures
            final(m).wf(),
            r is Ok <==> buyer < old(m).users@.len() && seller < old(m).users@.len() && amount > 0
                && old(m).users@[buyer as int].wallet_balance >= amount,
            r matches Err(e) ==> final(m).unchanged(old(m)) && e == (if buyer >= old(m).users@.len() || seller >= old(m).users@.len() {
                AppError::UserNotFound
            } else if amount <= 0 {
                AppError::InvalidAmount
            } else {
                AppError::InsufficientBalanceDetails {
                    needed: amount as u64,
                    available: old(m).users@[buyer as int].wallet_balance as u64,
                }
            }),
            r matches Ok(h) ==> {
                let x = final(m).escrows@[h as int];
                &&& h == old(m).escrows@.len()
                &&& final(m).escrows@ == old(m).escrows@.push(x)
                &&& x.buyer == buyer && x.seller == seller && x.amount == amount
                &&& x.status == EscrowStatus::Held
                &&& x.auto_release_at == after_days(now, escrow_days)
                &&& x.created_at == now && x.resolved_at is None
                &&& final(m).orders@ == old(m).orders@
                &&& final(m).listings@ == old(m).listings@
                &&& final(m).cart_items@ == old(m).cart_items@
                &&& final(m).checkouts@ == old(m).checkouts@
                &&& final(m).checkout_items@ == old(m).checkout_items@
                &&& final(m).order_items@ == old(m).order_items@
                &&& final(m).disputes@ == old(m).disputes@
                &&& final(m).evidence@ == old(m).evidence@
                &&& wallet_logged(
                    old(m).users@,
                    final(m).users@,
                    buyer,
                    -amount,
                    TransactionType::EscrowHold,
                    Some(h),
                    now,
                )
            },
    {
        if buyer >= m.users.len() || seller >= m.users.len() {
            return Err(AppError::UserNotFound);
        }
        if amount <= 0 {
            return Err(AppError::InvalidAmount);
        }
        let h = m.escrows.len();
        let ghost before = *m;
        match m.deduct_wallet(buyer, amount, TransactionType::EscrowHold, Some(h), now) {
            Err(e) => {
                return Err(e);
            },
            Ok(_) => {},
        }
        let ghost mid = *m;
        let escrow = Escrow {
            id: new_record_id(),
            buyer,
            seller,
            amount,
            status: EscrowStatus::Held,
            auto_release_at: add_days(now, escrow_days),
            created_at: now,
            resolved_at: None,
        };
        m.escrows.push(escrow);
        proof {
            let nu = m.users@.len() as int;
            assert forall|e: int| 0 <= e < m.escrows@.len() implies {
                &&& (#[trigger] m.escrows@[e]).buyer < nu
                &&& m.escrows@[e].seller < nu
                &&& m.escrows@[e].amount > 0
            } by {
                if e < h {
                    assert(m.escrows@[e] == mid.escrows@[e]);
                }
            }
            assert(escrows_wf(m.escrows@, nu));
            assert(orders_wf(m.orders@, nu, m.escrows@.len() as int));
            assert(mid.users@ == m.users@);
        }
        Ok(h)
    }

    /// Pays a held escrow to its seller, closes it as released and completes its orders.
    /// Anything but a held escrow is refused with `EscrowAlreadyReleased`, changing nothing.
    pub fn release_escrow(m: &mut Market, escrow_id: usize, now: i64) -> (r: Result<(), AppError>)
        requires
            old(m).wf(),
        ensures
            final(m).wf(),
            r is Ok <==> escrow_id < old(m).escrows@.len() && old(m).escrows@[escrow_id as int].status
                == EscrowStatus::Held && old(m).users@[old(m).escrows@[escrow_id as int].seller as int].wallet_balance
                + old(m).escrows@[escrow_id as int].amount <= i64::MAX,
            r matches Err(e) ==> final(m).unchanged(old(m)) && e == (if escrow_id >= old(m).escrows@.len() {
                AppError::EscrowNotFound
            } else if old(m).escrows@[escrow_id as int].status != EscrowStatus::Held {
                AppError::EscrowAlreadyReleased
            } else {
                AppError::BalanceOverflow
            }),
            r is Ok ==> {
                let x = old(m).escrows@[escrow_id as int];
                &&& final(m).escrows@ == old(m).escrows@.update(
                    escrow_id as int,
                    released_escrow(x, now),
                )
                &&& orders_settled(
                    old(m).orders@,
                    final(m).orders@,
                    escrow_id,
                    OrderStatus::Completed,
                    Some(now),
                )
                &&& wallet_logged(
                    old(m).users@,
                    final(m).users@,
                    x.seller,
                    x.amount as int,
                    TransactionType::EscrowRelease,
                    Some(escrow_id),
                    now,
                )
                &&& final(m).listings@ == old(m).listings@
                &&& final(m).cart_items@ == old(m).cart_items@
                &&& final(m).checkouts@ == old(m).checkouts@
                &&& final(m).checkout_items@ == old(m).checkout_items@
                &&& final(m).order_items@ == old(m).order_items@
                &&& final(m).disputes@ == old(m).disputes@
                &&& final(m).evidence@ == old(m).evidence@
                &&& final(m).seller_categories@ == old(m).seller_categories@
            },
    {
        if escrow_id >= m.escrows.len() {
            return Err(AppError::EscrowNotFound);
        }
        if m.escrows[escrow_id].status != EscrowStatus::Held {
            return Err(AppError::EscrowAlreadyReleased);
        }
        let seller = m.escrows[escrow_id].seller;
        let amount = m.escrows[escrow_id].amount;
        match m.credit_wallet(seller, amount, TransactionType::EscrowRelease, Some(escrow_id), now) {
            Err(e) => {
                return Err(e);
            },
            Ok(_) => {},
        }
        let ghost mid = *m;
        Self::close(m, escrow_id, EscrowStatus::Released, now);
        m.settle_orders(escrow_id, OrderStatus::Completed, Some(now));
        assert(mid.users@ == m.users@);
        Ok(())
    }

    /// Pays a held or disputed escrow back to its buyer, closes it as refunded and marks
    /// its orders refunded. Any other escrow is refused with `EscrowAlreadyRefunded`.
    pub fn refund_escrow(m: &mut Market, escrow_id: usize, now: i64) -> (r: Result<(), AppError>)
        requires
            old(m).wf(),
        ensures
            final(m).wf(),
            r is Ok <==> escrow_id < old(m).escrows@.len() && (old(m).escrows@[escrow_id as int].status
                == EscrowStatus::Held || old(m).escrows@[escrow_id as int].status
                == EscrowStatus::Disputed) && old(m).users@[old(m).escrows@[escrow_id as int].buyer as int].wallet_balance
                + old(m).escrows@[escrow_id as int].amount <= i64::MAX,
            r matches Err(e) ==> final(m).unchanged(old(m)) && e == (if escrow_id >= old(m).escrows@.len() {
                AppError::EscrowNotFound
            } else if old(m).escrows@[escrow_id as int].status != EscrowStatus::Held && old(m).escrows@[escrow_id as int].status != EscrowStatus::Disputed {
                AppError::EscrowAlreadyRefunded
            } else {
                AppError::BalanceOverflow
            }),
            r is Ok ==> {
                let x = old(m).escrows@[escrow_id as int];
                &&& final(m).escrows@ == old(m).escrows@.update(
                    escrow_id as int,
                    closed_escrow(x, EscrowStatus::Refunded, now),
                )
                &&& orders_settled(
                    old(m).orders@,
                    final(m).orders@,
                    escrow_id,
                    OrderStatus::Refunded,
                    None,
                )
                &&& wallet_logged(
                    old(m).users@,
                    final(m).users@,
                    x.buyer,
                    x.amount as int,
                    TransactionType::EscrowRefund,
                    Some(escrow_id),
                    now,
                )
                &&& final(m).listings@ == old(m).listings@
                &&& final(m).cart_items@ == old(m).cart_items@
                &&& final(m).checkouts@ == old(m).checkouts@
                &&& final(m).checkout_items@ == old(m).checkout_items@
                &&& final(m).order_items@ == old(m).order_items@
                &&& final(m).disputes@ == old(m).disputes@
                &&& final(m).evidence@ == old(m).evidence@
                &&& final(m).seller_categories@ == old(m).seller_categories@
            },
    {
        if escrow_id >= m.escrows.len() {
            return Err(AppError::EscrowNotFound);
        }
        let status = m.escrows[escrow_id].status;
        if status != EscrowStatus::Held && status != EscrowStatus::Disputed {
            return Err(AppError::EscrowAlreadyRefunded);
        }
        let buyer = m.escrows[escrow_id].buyer;
        let amount = m.escrows[escrow_id].amount;
        match m.credit_wallet(buyer, amount, TransactionType::EscrowRefund, Some(escrow_id), now) {
            Err(e) => {
                return Err(e);
            },
            Ok(_) => {},
        }
        let ghost mid = *m;
        Self::close(m, escrow_id, EscrowStatus::Refunded, now);
        m.settle_orders(escrow_id, OrderStatus::Refunded, None);
        assert(mid.users@ == m.users@);
        Ok(())
    }

    /// Sets escrow `e` to the final `status` at `now`.
    fn close(m: &mut Market, e: usize, status: EscrowStatus, now: i64)
        requires
            old(m).wf(),
            e < old(m).escrows@.len(),
        ensures
            final(m).wf(),
            final(m).escrows@ == old(m).escrows@.update(
                e as int,
                closed_escrow(old(m).escrows@[e as int], status, now),
            ),
            final(m).orders@ == old(m).orders@,
            final(m).same_but_escrows_orders(old(m)),
    {
        let x = &mut m.escrows[e];
        x.status = status;
        x.resolved_at = Some(now);
        proof {
            let nu = m.users@.len() as int;
            assert forall|i: int| 0 <= i < m.escrows@.len() implies {
                &&& (#[trigger] m.escrows@[i]).buyer < nu
                &&& m.escrows@[i].seller < nu
                &&& m.escrows@[i].amount > 0
            } by {
                assert(old(m).escrows@[i].amount > 0);
            }
            assert(m.escrows@ =~= old(m).escrows@.update(
                e as int,
                closed_escrow(old(m).escrows@[e as int], status, now),
            ));
        }
    }

    /// Moves a held escrow to disputed. Any other escrow, or a handle with no escrow, is
    /// left alone: this absorbs a race with the automatic release.
    pub fn mark_disputed(m: &mut Market, escrow_id: usize)
        requires
            old(m).wf(),
        ensures
            final(m).wf(),
            final(m).orders@ == old(m).orders@,
            final(m).same_but_escrows_orders(old(m)),
            final(m).escrows@ == if escrow_id < old(m).escrows@.len() && old(m).escrows@[escrow_id as int].status == EscrowStatus::Held {
                old(m).escrows@.update(
                    escrow_id as int,
                    Escrow { status: EscrowStatus::Disputed, ..old(m).escrows@[escrow_id as int] },
                )
            } else {
                old(m).escrows@
            },
    {
        if escrow_id < m.escrows.len() && m.escrows[escrow_id].status == EscrowStatus::Held {
            m.escrows[escrow_id].status = EscrowStatus::Disputed;
            proof {
                let nu = m.users@.len() as int;
                assert forall|i: int| 0 <= i < m.escrows@.len() implies {
                    &&& (#[trigger] m.escrows@[i]).buyer < nu
                    &&& m.escrows@[i].seller < nu
                    &&& m.escrows@[i].amount > 0
                } by {
                    assert(old(m).escrows@[i].amount > 0);
                }
                assert(m.escrows@ =~= old(m).escrows@.update(
                    escrow_id as int,
                    Escrow { status: EscrowStatus::Disputed, ..old(m).escrows@[escrow_id as int] },
                ));
            }
        }
    }

    /// The escrow with handle `escrow_id`.
    pub fn get_escrow(m: &Market, escrow_id: usize) -> (r: Result<&Escrow, AppError>)
        ensures
            r is Ok <==> escrow_id < m.escrows@.len(),
            r matches Ok(x) ==> *x == m.escrows@[escrow_id as int],
            r matches Err(e) ==> e == AppError::EscrowNotFound,
    {
        if escrow_id >= m.escrows.len() {
            return Err(AppError::EscrowNotFound);
        }
        Ok(&m.escrows[escrow_id])
    }

    /// Handles of the escrows that are held and due at `now`, in increasing order.
    pub fn get_pending_auto_releases(m: &Market, now: i64) -> (r: Vec<usize>)
        ensures
            forall|k: int|
                0 <= k < r@.len() ==> #[trigger] r@[k] < m.escrows@.len() && is_due(
                    m.escrows@[r@[k] as int],
                    now,
                ),
            forall|k1: int, k2: int| 0 <= k1 < k2 < r@.len() ==> r@[k1] < r@[k2],
            forall|i: int|
                0 <= i < m.escrows@.len() && is_due(#[trigger] m.escrows@[i], now) ==> r@.contains(
                    i as usize,
                ),
    {
        let mut r: Vec<usize> = Vec::new();
        let n = m.escrows.len();
        let mut i: usize = 0;
        while i < n
            invariant
                n == m.escrows@.len(),
                i <= n,
                forall|k: int|
                    0 <= k < r@.len() ==> #[trigger] r@[k] < i && is_due(
                        m.escrows@[r@[k] as int],
                        now,
                    ),
                forall|k1: int, k2: int| 0 <= k1 < k2 < r@.len() ==> r@[k1] < r@[k2],
                forall|j: int|
                    0 <= j < i && is_due(#[trigger] m.escrows@[j], now) ==> r@.contains(j as usize),
            decreases n - i,
        {
            if m.escrows[i].should_auto_release(now) {
                let ghost old_r = r@;
                r.push(i);
                proof {
                    assert forall|j: int|
                        0 <= j < i + 1 && is_due(#[trigger] m.escrows@[j], now) implies r@.contains(
                        j as usize,
                    ) by {
                        if j < i {
                            let k = choose|k: int| 0 <= k < old_r.len() && old_r[k] == j as usize;
                            assert(r@[k] == j as usize);
                        } else {
                            assert(r@[r@.len() - 1] == j as usize);
                        }
                    }
                }
            }
            i = i + 1;
        }
        r
    }

    /// Settles a disputed escrow as `resolution` says: credits the buyer's and the seller's
    /// shares (each only when positive), and destroys the rest. The escrow ends refunded
    /// for `BuyerFull` and released otherwise; its orders end refunded or completed alike.
    pub fn resolve_dispute(
        m: &mut Market,
        escrow_id: usize,
        resolution: DisputeResolution,
        now: i64,
    ) -> (r: Result<(), AppError>)
        requires
            old(m).wf(),
        ensures
            final(m).wf(),
            r is Ok <==> resolvable(*old(m), escrow_id, resolution),
            r matches Err(err) ==> final(m).unchanged(old(m)) && if escrow_id >= old(m).escrows@.len() || old(m).escrows@[escrow_id as int].status != EscrowStatus::Disputed {
                err == AppError::EscrowNotFound
            } else if !resolution.is_valid() {
                err matches AppError::InvalidResolution(t) && t@ == resolution_text(resolution)
            } else {
                err == AppError::BalanceOverflow
            },
            r is Ok ==> settled_by(*old(m), *final(m), escrow_id, resolution, now) && final(m).disputes@ == old(m).disputes@,
    {
        if escrow_id >= m.escrows.len() || m.escrows[escrow_id].status != EscrowStatus::Disputed {
            return Err(AppError::EscrowNotFound);
        }
        if !resolution.validate() {
            return Err(AppError::InvalidResolution(resolution.to_str()));
        }
        let buyer = m.escrows[escrow_id].buyer;
        let seller = m.escrows[escrow_id].seller;
        let amount = m.escrows[escrow_id].amount;
        let (b, s) = resolution.calculate_amounts(amount);
        proof {
            lemma_resolution_conserves_amount(resolution, amount as int);
        }
        let bb = m.users[buyer].wallet_balance;
        let sb = m.users[seller].wallet_balance;
        if buyer == seller {
            if bb > i64::MAX - b - s {
                return Err(AppError::BalanceOverflow);
            }
        } else if bb > i64::MAX - b || sb > i64::MAX - s {
            return Err(AppError::BalanceOverflow);
        }
        let ghost u0 = m.users@;
        if b > 0 {
            let _ = m.credit_wallet(buyer, b, TransactionType::EscrowRefund, Some(escrow_id), now);
        }
        let ghost u1 = m.users@;
        assert(credit_step(u0, u1, buyer, b as int, TransactionType::EscrowRefund, escrow_id, now));
        if s > 0 {
            let _ = m.credit_wallet(seller, s, TransactionType::EscrowRelease, Some(escrow_id), now);
        }
        let ghost u2 = m.users@;
        assert(credit_step(u1, u2, seller, s as int, TransactionType::EscrowRelease, escrow_id, now));
        let refund = resolution == DisputeResolution::BuyerFull;
        let status = if refund {
            EscrowStatus::Refunded
        } else {
            EscrowStatus::Released
        };
        Self::close(m, escrow_id, status, now);
        let order_status = if refund {
            OrderStatus::Refunded
        } else {
            OrderStatus::Completed
        };
        m.settle_orders(escrow_id, order_status, Some(now));
        proof {
            assert(m.users@ == u2);
            assert forall|u: int| 0 <= u < u0.len() implies #[trigger] u2[u].wallet_balance
                == u0[u].wallet_balance + (if u == buyer {
                b as int
            } else {
                0
            }) + (if u == seller {
                s as int
            } else {
                0
            }) by {}
        }
        Ok(())
    }

    /// One sweep of the automatic release at `now`: releases every held escrow whose hold
    /// period is over, and touches nothing else. An escrow whose release fails stays held and
    /// does not stop the sweep. Returns how many were released.
    pub fn process_auto_releases_at(m: &mut Market, now: i64) -> (r: u32)
        requires
            old(m).wf(),
        ensures
            final(m).wf(),
            swept(*old(m), *final(m), now, r),
    {
        let n = m.escrows.len();
        proof {
            assert forall|u: int| 0 <= u < old(m).users@.len() implies release_rows(
                old(m).users@[u].transactions@,
                (#[trigger] m.users@[u]).transactions@,
                released_refs(old(m).escrows@, m.escrows@, u, 0),
                old(m).escrows@,
                now,
            ) by {
                let t = old(m).users@[u].transactions@;
                assert(t.subrange(0, t.len() as int) =~= t);
            }
        }
        let mut released: usize = 0;
        let mut i: usize = 0;
        while i < n
            invariant
                n == m.escrows@.len(),
                n == old(m).escrows@.len(),
                i <= n,
                m.wf(),
                released <= i,
                released == released_count(old(m).escrows@, m.escrows@, i as int),
                forall|j: int| i <= j < n ==> #[trigger] m.escrows@[j] == old(m).escrows@[j],
                forall|j: int|
                    0 <= j < i && !is_due(old(m).escrows@[j], now) ==> #[trigger] m.escrows@[j]
                        == old(m).escrows@[j],
                forall|j: int|
                    0 <= j < i && is_due(old(m).escrows@[j], now) ==> #[trigger] m.escrows@[j]
                        == released_escrow(old(m).escrows@[j], now) || (m.escrows@[j] == old(m).escrows@[j] && m.users@[old(m).escrows@[j].seller as int].wallet_balance + old(m).escrows@[j].amount > i64::MAX),
                m.users@.len() == old(m).users@.len(),
                forall|u: int|
                    0 <= u < old(m).users@.len() ==> release_rows(
                        old(m).users@[u].transactions@,
                        (#[trigger] m.users@[u]).transactions@,
                        released_refs(old(m).escrows@, m.escrows@, u, i as int),
                        old(m).escrows@,
                        now,
                    ),
                m.seller_categories@ == old(m).seller_categories@,
                forall|u: int|
                    0 <= u < old(m).users@.len() ==> #[trigger] m.users@[u].wallet_balance == old(m).users@[u].wallet_balance + released_to(
                        old(m).escrows@,
                        m.escrows@,
                        u,
                        i as int,
                    ),
                forall|u: int|
                    0 <= u < old(m).users@.len() ==> released_to(
                        old(m).escrows@,
                        m.escrows@,
                        u,
                        i as int,
                    ) >= 0,
                m.orders@.len() == old(m).orders@.len(),
                forall|o: int|
                    0 <= o < old(m).orders@.len() ==> #[trigger] m.orders@[o] == if m.escrows@[old(m).orders@[o].escrow_id as int].status != old(m).escrows@[old(m).orders@[o].escrow_id as int].status {
                        settled_order(old(m).orders@[o], OrderStatus::Completed, Some(now))
                    } else {
                        old(m).orders@[o]
                    },
                m.listings@ == old(m).listings@,
                m.cart_items@ == old(m).cart_items@,
                m.checkouts@ == old(m).checkouts@,
                m.checkout_items@ == old(m).checkout_items@,
                m.order_items@ == old(m).order_items@,
                m.disputes@ == old(m).disputes@,
                m.evidence@ == old(m).evidence@,
            decreases n - i,
        {
            let ghost before = *m;
            if m.escrows[i].should_auto_release(now) {
                let res = Self::release_escrow(m, i, now);
                proof {
                    lemma_sweep_prefix(old(m).escrows@, before.escrows@, m.escrows@, i as int);
                    if res is Ok {
                        assert forall|o: int| 0 <= o < old(m).orders@.len() implies #[trigger] m.orders@[o]
                            == if m.escrows@[old(m).orders@[o].escrow_id as int].status != old(m).escrows@[old(m).orders@[o].escrow_id as int].status {
                            settled_order(old(m).orders@[o], OrderStatus::Completed, Some(now))
                        } else {
                            old(m).orders@[o]
                        } by {
                            assert(before.orders@[o] == if before.escrows@[old(m).orders@[o].escrow_id as int].status != old(m).escrows@[old(m).orders@[o].escrow_id as int].status {
                                settled_order(old(m).orders@[o], OrderStatus::Completed, Some(now))
                            } else {
                                old(m).orders@[o]
                            });
                        }
                        let sl = old(m).escrows@[i as int].seller;
                        assert forall|u: int| 0 <= u < old(m).users@.len() implies release_rows(
                            old(m).users@[u].transactions@,
                            (#[trigger] m.users@[u]).transactions@,
                            released_refs(old(m).escrows@, m.escrows@, u, i + 1),
                            old(m).escrows@,
                            now,
                        ) by {
                            if u == sl {
                                lemma_release_rows_push(
                                    old(m).users@[u].transactions@,
                                    before.users@[u].transactions@,
                                    m.users@[u].transactions@,
                                    released_refs(old(m).escrows@, before.escrows@, u, i as int),
                                    old(m).escrows@,
                                    now,
                                    i,
                                );
                            } else {
                                assert(m.users@[u] == before.users@[u]);
                            }
                        }
                    } else {
                        assert(m.escrows@ == before.escrows@);
                    }
                }
                if res.is_ok() {
                    released = released + 1;
                }
            } else {
                proof {
                    lemma_sweep_prefix(old(m).escrows@, before.escrows@, m.escrows@, i as int);
                }
            }
            i = i + 1;
        }
        if released > u32::MAX as usize {
            u32::MAX
        } else {
            released as u32
        }
    }

    /// One sweep of the automatic release at the current time: whatever time the clock
    /// gives, the outcome is that of `process_auto_releases_at` at that time.
    pub fn process_auto_releases(m: &mut Market) -> (r: u32)
        requires
            old(m).wf(),
        ensures
            final(m).wf(),
            exists|now: i64| #[trigger] swept(*old(m), *final(m), now, r),
    {
        let now = now_seconds();
        let r = Self::process_auto_releases_at(m, now);
        assert(swept(*old(m), *m, now, r));
        r
    }
}

/// Settling a dispute moves exactly the escrowed amount: what the buyer's and the seller's
/// wallets gain, plus what is destroyed, equals the escrow's amount, and nobody else's
/// balance moves.
pub proof fn lemma_settlement_conserves_escrow(
    old: Market,
    new: Market,
    e: usize,
    resolution: DisputeResolution,
    now: i64,
)
    requires
        old.wf(),
        resolvable(old, e, resolution),
        settled_by(old, new, e, resolution, now),
    ensures
        ({
            let x = old.escrows@[e as int];
            let gain_b = new.users@[x.buyer as int].wallet_balance - old.users@[x.buyer as int].wallet_balance;
            let gain_s = new.users@[x.seller as int].wallet_balance - old.users@[x.seller as int].wallet_balance;
            &&& gain_b >= 0
            &&& gain_s >= 0
            &&& (if x.buyer == x.seller {
                gain_b
            } else {
                gain_b + gain_s
            }) + resolution.destroyed_remainder(x.amount as int) == x.amount
            &&& forall|u: int|
                0 <= u < old.users@.len() && u != x.buyer && u != x.seller ==> #[trigger] new.users@[u].wallet_balance
                    == old.users@[u].wallet_balance
        }),
{
    let x = old.escrows@[e as int];
    lemma_resolution_conserves_amount(resolution, x.amount as int);
    assert(new.users@[x.buyer as int].wallet_balance == old.users@[x.buyer as int].wallet_balance + resolution.buyer_share(x.amount as int) + (if x.buyer == x.seller {
        resolution.seller_share(x.amount as int)
    } else {
        0
    }));
    assert(new.users@[x.seller as int].wallet_balance == old.users@[x.seller as int].wallet_balance + resolution.seller_share(x.amount as int) + (if x.buyer == x.seller {
        resolution.buyer_share(x.amount as int)
    } else {
        0
    }));
}

/// `new` is `old` after one sweep of the automatic release at `now` that returned `r`: every
/// held escrow due at `now` is released (or, when paying it would overflow its seller's
/// balance, stays held), nothing else changes status, each seller's wallet gains exactly the
/// amounts released to them, with one `EscrowRelease` row per released escrow appended to
/// their log in escrow order, the orders of released escrows are completed, and `r` counts
/// the released escrows (saturating at `u32::MAX`).
pub open spec fn swept(old: Market, new: Market, now: i64, r: u32) -> bool {
    let n = old.escrows@.len() as int;
    let count = released_count(old.escrows@, new.escrows@, n);
    &&& new.escrows@.len() == old.escrows@.len()
    &&& forall|i: int|
        0 <= i < n && !is_due(old.escrows@[i], now) ==> #[trigger] new.escrows@[i]
            == old.escrows@[i]
    &&& forall|i: int|
        0 <= i < n && is_due(old.escrows@[i], now) ==> #[trigger] new.escrows@[i]
            == released_escrow(old.escrows@[i], now) || (new.escrows@[i] == old.escrows@[i]
            && new.users@[old.escrows@[i].seller as int].wallet_balance + old.escrows@[i].amount
            > i64::MAX)
    &&& r == if count <= u32::MAX {
        count
    } else {
        u32::MAX as int
    }
    &&& new.users@.len() == old.users@.len()
    &&& forall|u: int|
        0 <= u < old.users@.len() ==> #[trigger] new.users@[u].wallet_balance
            == old.users@[u].wallet_balance + released_to(old.escrows@, new.escrows@, u, n)
    &&& forall|u: int|
        0 <= u < old.users@.len() ==> release_rows(
            old.users@[u].transactions@,
            (#[trigger] new.users@[u]).transactions@,
            released_refs(old.escrows@, new.escrows@, u, n),
            old.escrows@,
            now,
        )
    &&& new.orders@.len() == old.orders@.len()
    &&& forall|o: int|
        0 <= o < old.orders@.len() ==> #[trigger] new.orders@[o] == if new.escrows@[old.orders@[o].escrow_id as int].status
            != old.escrows@[old.orders@[o].escrow_id as int].status {
            settled_order(old.orders@[o], OrderStatus::Completed, Some(now))
        } else {
            old.orders@[o]
        }
    &&& new.listings@ == old.listings@
    &&& new.cart_items@ == old.cart_items@
    &&& new.checkouts@ == old.checkouts@
    &&& new.checkout_items@ == old.checkout_items@
    &&& new.order_items@ == old.order_items@
    &&& new.disputes@ == old.disputes@
    &&& new.evidence@ == old.evidence@
    &&& new.seller_categories@ == old.seller_categories@
}

/// Handles, in order, of the first `n` escrows that changed status between `old` and `new`
/// and whose seller is `u`.
pub open spec fn released_refs(old: Seq<Escrow>, new: Seq<Escrow>, u: int, n: int) -> Seq<usize>
    decreases n,
{
    if n <= 0 {
        Seq::empty()
    } else {
        let rest = released_refs(old, new, u, n - 1);
        if new[n - 1].status != old[n - 1].status && old[n - 1].seller == u {
            rest.push((n - 1) as usize)
        } else {
            rest
        }
    }
}

/// `new` is the log `old` followed by one row per handle of `refs`, in order: an
/// `EscrowRelease` credit of that escrow's amount, referencing it, made at `now`.
pub open spec fn release_rows(
    old: Seq<WalletTransaction>,
    new: Seq<WalletTransaction>,
    refs: Seq<usize>,
    escrows: Seq<Escrow>,
    now: i64,
) -> bool {
    &&& new.len() == old.len() + refs.len()
    &&& new.subrange(0, old.len() as int) == old
    &&& forall|j: int|
        old.len() <= j < new.len() ==> {
            let x = #[trigger] new[j];
            let e = refs[j - old.len()];
            &&& x.reference_id == Some(e)
            &&& x.transaction_type == TransactionType::EscrowRelease
            &&& x.amount == escrows[e as int].amount
            &&& x.created_at == now
        }
}

proof fn lemma_release_rows_push(
    orig: Seq<WalletTransaction>,
    cur: Seq<WalletTransaction>,
    next: Seq<WalletTransaction>,
    refs: Seq<usize>,
    escrows: Seq<Escrow>,
    now: i64,
    i: usize,
)
    requires
        release_rows(orig, cur, refs, escrows, now),
        next.drop_last() == cur,
        next.len() == cur.len() + 1,
        next.last().reference_id == Some(i),
        next.last().transaction_type == TransactionType::EscrowRelease,
        next.last().amount == escrows[i as int].amount,
        next.last().created_at == now,
    ensures
        release_rows(orig, next, refs.push(i), escrows, now),
{
    assert(next.subrange(0, orig.len() as int) =~= cur.subrange(0, orig.len() as int));
    assert forall|j: int| orig.len() <= j < next.len() implies {
        let x = #[trigger] next[j];
        let e = refs.push(i)[j - orig.len()];
        &&& x.reference_id == Some(e)
        &&& x.transaction_type == TransactionType::EscrowRelease
        &&& x.amount == escrows[e as int].amount
        &&& x.created_at == now
    } by {
        if j < cur.len() {
            assert(next[j] == cur[j]);
        }
    }
}

/// How many of the first `n` escrows changed status between `old` and `new`.
pub open spec fn released_count(old: Seq<Escrow>, new: Seq<Escrow>, n: int) -> int
    decreases n,
{
    if n <= 0 {
        0
    } else {
        released_count(old, new, n - 1) + if new[n - 1].status != old[n - 1].status {
            1int
        } else {
            0int
        }
    }
}

/// The amounts of the first `n` escrows that changed status between `old` and `new` and
/// whose seller is `u`.
pub open spec fn released_to(old: Seq<Escrow>, new: Seq<Escrow>, u: int, n: int) -> int
    decreases n,
{
    if n <= 0 {
        0
    } else {
        released_to(old, new, u, n - 1) + if new[n - 1].status != old[n - 1].status
            && old[n - 1].seller == u {
            old[n - 1].amount as int
        } else {
            0int
        }
    }
}

proof fn lemma_prefix_counts(old: Seq<Escrow>, a: Seq<Escrow>, b: Seq<Escrow>, n: int)
    requires
        0 <= n <= a.len(),
        n <= b.len(),
        forall|j: int| 0 <= j < n ==> a[j] == b[j],
    ensures
        released_count(old, a, n) == released_count(old, b, n),
        forall|u: int| #[trigger] released_to(old, a, u, n) == released_to(old, b, u, n),
        forall|u: int| #[trigger] released_refs(old, a, u, n) == released_refs(old, b, u, n),
    decreases n,
{
    if n > 0 {
        lemma_prefix_counts(old, a, b, n - 1);
        assert forall|u: int| #[trigger] released_to(old, a, u, n) == released_to(old, b, u, n) by {
            assert(released_to(old, a, u, n - 1) == released_to(old, b, u, n - 1));
        }
        assert forall|u: int| #[trigger] released_refs(old, a, u, n) == released_refs(old, b, u, n) by {
            assert(released_refs(old, a, u, n - 1) == released_refs(old, b, u, n - 1));
        }
    }
}

/// After step `i` of the sweep the prefix sums extend by that step alone.
proof fn lemma_sweep_prefix(old: Seq<Escrow>, before: Seq<Escrow>, after: Seq<Escrow>, i: int)
    requires
        0 <= i < before.len(),
        after.len() == before.len(),
        old.len() == before.len(),
        forall|j: int| 0 <= j < before.len() && j != i ==> after[j] == before[j],
    ensures
        released_count(old, after, i) == released_count(old, before, i),
        released_count(old, after, i + 1) == released_count(old, before, i) + if after[i].status
            != old[i].status {
            1int
        } else {
            0int
        },
        forall|u: int|
            #[trigger] released_to(old, after, u, i + 1) == released_to(old, before, u, i) + if after[i].status
                != old[i].status && old[i].seller == u {
                old[i].amount as int
            } else {
                0int
            },
        forall|u: int|
            #[trigger] released_refs(old, after, u, i + 1) == if after[i].status != old[i].status
                && old[i].seller == u {
                released_refs(old, before, u, i).push(i as usize)
            } else {
                released_refs(old, before, u, i)
            },
{
    lemma_prefix_counts(old, after, before, i);
    assert forall|u: int|
        #[trigger] released_refs(old, after, u, i + 1) == if after[i].status != old[i].status
            && old[i].seller == u {
            released_refs(old, before, u, i).push(i as usize)
        } else {
            released_refs(old, before, u, i)
        } by {
        assert(released_refs(old, after, u, i) == released_refs(old, before, u, i));
    }
    assert forall|u: int|
        #[trigger] released_to(old, after, u, i + 1) == released_to(old, before, u, i) + if after[i].status
            != old[i].status && old[i].seller == u {
            old[i].amount as int
        } else {
            0int
        } by {
        assert(released_to(old, after, u, i) == released_to(old, before, u, i));
    }
}

} // verus!
