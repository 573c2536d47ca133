//! Orders: what a buyer bought from one seller, bound one-to-one to an escrow.

use vstd::prelude::*;

use crate::error::AppError;
use crate::escrow::{released_escrow, EscrowService};
use crate::market::{orders_wf, wallet_logged, Market};
use crate::status::{EscrowStatus, OrderStatus, TransactionType};

verus! {

/// One seller's part of a paid checkout.
#[derive(Debug, Clone)]
pub struct Order {
    pub id: String,
    /// The checkout session it came from.
    pub checkout_id: usize,
    pub buyer: usize,
    pub seller: usize,
    /// The escrow holding its payment.
    pub escrow_id: usize,
    pub status: OrderStatus,
    pub tracking_info: Option<String>,
    pub shipped_at: Option<i64>,
    pub completed_at: Option<i64>,
    pub created_at: i64,
}

/// One listing bought within an order, at its locked price.
#[derive(Debug, Clone)]
pub struct OrderItem {
    pub id: String,
    pub order_id: usize,
    pub listing_id: usize,
    pub price: i64,
    pub encrypted_shipping: Option<String>,
    pub digital_content: Option<String>,
}

impl Order {
    pub open spec fn is_confirmable(self) -> bool {
        self.status == OrderStatus::Pending || self.status == OrderStatus::Shipped
    }

    /// The buyer may confirm delivery while the order is pending or shipped.
    pub fn can_confirm(&self) -> (r: bool)
        ensures
            r == self.is_confirmable(),
    {
        self.status == OrderStatus::Pending || self.status == OrderStatus::Shipped
    }

    /// A dispute may be opened while the order is pending or shipped.
    pub fn can_dispute(&self) -> (r: bool)
        ensures
            r == self.is_confirmable(),
    {
        self.status == OrderStatus::Pending || self.status == OrderStatus::Shipped
    }

    /// The seller may ship only a pending order.
    pub fn can_ship(&self) -> (r: bool)
        ensures
            r == (self.status == OrderStatus::Pending),
    {
        self.status == OrderStatus::Pending
    }
}

/// `o` after its escrow settled: the new status, and the completion time when one is given.
pub open spec fn settled_order(o: Order, status: OrderStatus, completed_at: Option<i64>) -> Order {
    Order {
        status: status,
        completed_at: if completed_at is Some {
            completed_at
        } else {
            o.completed_at
        },
        ..o
    }
}

/// Every order bound to escrow `e` is settled as given; the others are as they were.
pub open spec fn orders_settled(
    old: Seq<Order>,
    new: Seq<Order>,
    e: usize,
    status: OrderStatus,
    completed_at: Option<i64>,
) -> bool {
    &&& new.len() == old.len()
    &&& forall|i: int|
        0 <= i < old.len() ==> #[trigger] new[i] == if old[i].escrow_id == e {
            settled_order(old[i], status, completed_at)
        } else {
            old[i]
        }
}

impl Market {
    /// The seller ships a pending order of theirs, with optional tracking information.
    pub fn mark_shipped(
        &mut self,
        order_id: usize,
        seller: usize,
        tracking_info: Option<String>,
        now: i64,
    ) -> (r: Result<(), AppError>)
        requires
            old(self).wf(),
        ensures
            final(self).wf(),
            r is Ok <==> order_id < old(self).orders@.len() && old(self).orders@[order_id as int].seller == seller
                && old(self).orders@[order_id as int].status == OrderStatus::Pending,
            r matches Err(e) ==> final(self).unchanged(old(self)) && e == (if order_id >= old(self).orders@.len() {
                AppError::OrderNotFound
            } else if old(self).orders@[order_id as int].seller != seller {
                AppError::NotAuthorized
            } else {
                AppError::OrderAlreadyCompleted
            }),
            r is Ok ==> final(self).orders@ == old(self).orders@.update(
                order_id as int,
                Order {
                    status: OrderStatus::Shipped,
                    tracking_info: tracking_info,
                    shipped_at: Some(now),
                    ..old(self).orders@[order_id as int]
                },
            ) && final(self).escrows@ == old(self).escrows@ && final(self).same_but_escrows_orders(old(self)),
    {
        if order_id >= self.orders.len() {
            return Err(AppError::OrderNotFound);
        }
        if self.orders[order_id].seller != seller {
            return Err(AppError::NotAuthorized);
        }
        if !self.orders[order_id].can_ship() {
            return Err(AppError::OrderAlreadyCompleted);
        }
        let o = &mut self.orders[order_id];
        o.status = OrderStatus::Shipped;
        o.tracking_info = tracking_info;
        o.shipped_at = Some(now);
        proof {
            let nu = self.users@.len() as int;
            let ne = self.escrows@.len() as int;
            assert forall|i: int| 0 <= i < self.orders@.len() implies {
                &&& (#[trigger] self.orders@[i]).escrow_id < ne
                &&& self.orders@[i].buyer < nu
                &&& self.orders@[i].seller < nu
            } by {
                assert(old(self).orders@[i].escrow_id < ne);
            }
            assert(orders_wf(self.orders@, nu, ne));
            assert(self.orders@ =~= old(self).orders@.update(
                order_id as int,
                Order {
                    status: OrderStatus::Shipped,
                    tracking_info: tracking_info,
                    shipped_at: Some(now),
                    ..old(self).orders@[order_id as int]
                },
            ));
        }
        Ok(())
    }

    /// The buyer confirms delivery of a pending or shipped order of theirs, which releases
    /// its escrow to the seller.
    pub fn confirm_order(&mut self, order_id: usize, buyer: usize, now: i64) -> (r: Result<(), AppError>)
        requires
            old(self).wf(),
        ensures
            final(self).wf(),
            ({
                let o = old(self).orders@[order_id as int];
                let x = old(self).escrows@[o.escrow_id as int];
                &&& r is Ok <==> order_id < old(self).orders@.len() && o.buyer == buyer && o.is_confirmable()
                    && x.status == EscrowStatus::Held && old(self).users@[x.seller as int].wallet_balance
                    + x.amount <= i64::MAX
                &&& r matches Err(e) ==> final(self).unchanged(old(self)) && e == (if order_id >= old(self).orders@.len() {
                    AppError::OrderNotFound
                } else if o.buyer != buyer {
                    AppError::NotAuthorized
                } else if !o.is_confirmable() {
                    AppError::OrderAlreadyCompleted
                } else if x.status != EscrowStatus::Held {
                    AppError::EscrowAlreadyReleased
                } else {
                    AppError::BalanceOverflow
                })
                &&& r is Ok ==> {
                    &&& final(self).escrows@ == old(self).escrows@.update(
                        o.escrow_id as int,
                        released_escrow(x, now),
                    )
                    &&& orders_settled(
                        old(self).orders@,
                        final(self).orders@,
                        o.escrow_id,
                        OrderStatus::Completed,
                        Some(now),
                    )
                    &&& wallet_logged(
                        old(self).users@,
                        final(self).users@,
                        x.seller,
                        x.amount as int,
                        TransactionType::EscrowRelease,
                        Some(o.escrow_id),
                        now,
                    )
                }
            }),
    {
        if order_id >= self.orders.len() {
            return Err(AppError::OrderNotFound);
        }
        if self.orders[order_id].buyer != buyer {
            return Err(AppError::NotAuthorized);
        }
        if !self.orders[order_id].can_confirm() {
            return Err(AppError::OrderAlreadyCompleted);
        }
        let e = self.orders[order_id].escrow_id;
        EscrowService::release_escrow(self, e, now)
    }
}

} // verus!
