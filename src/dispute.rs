//! Disputes over an order: opened by the buyer, argued with evidence, settled by an adjudicator.

use vstd::prelude::*;

use crate::error::AppError;
use crate::escrow::{resolvable, settled_by, EscrowService};
use crate::market::{add_days, after_days, disputes_wf, orders_wf, Market};
use crate::resolution::{parse_resolution, DisputeResolution};
use crate::escrow::Escrow;
use crate::order::Order;
use crate::status::{DisputeStatus, EscrowStatus, EvidenceType, OrderStatus};
use crate::sys::new_record_id;

verus! {

/// Days between opening a dispute and its automatic-resolution deadline.
pub const DISPUTE_WINDOW_DAYS: u32 = 10;

/// Seconds before the deadline from which a warning is due.
pub const WARNING_LEAD_SECONDS: i64 = 604800;

/// A buyer's complaint about an order, and how it was settled.
#[derive(Debug, Clone)]
pub struct Dispute {
    pub id: String,
    pub order_id: usize,
    pub escrow_id: usize,
    pub initiated_by: String,
    pub reason: String,
    pub status: DisputeStatus,
    /// Set when resolved.
    pub resolution: Option<DisputeResolution>,
    pub resolution_notes: Option<String>,
    /// The adjudicator, when resolved.
    pub resolved_by: Option<usize>,
    pub warning_sent_at: Option<i64>,
    /// Fixed when the dispute is opened.
    pub auto_resolve_at: i64,
    pub created_at: i64,
    pub resolved_at: Option<i64>,
}

/// Something a party submitted while the dispute was open. Never changed once written.
#[derive(Debug, Clone)]
pub struct DisputeEvidence {
    pub id: String,
    pub dispute_id: usize,
    pub submitted_by: usize,
    pub evidence_type: EvidenceType,
    pub content: String,
    pub created_at: i64,
}

impl Dispute {
    /// Still awaiting a resolution.
    pub fn is_open(&self) -> (r: bool)
        ensures
            r == (self.status == DisputeStatus::Open),
    {
        self.status == DisputeStatus::Open
    }

    /// Open and its deadline has come at `now`.
    pub fn should_auto_resolve(&self, now: i64) -> (r: bool)
        ensures
            r == (self.status == DisputeStatus::Open && self.auto_resolve_at <= now),
    {
        self.is_open() && self.auto_resolve_at <= now
    }

    /// Open, not yet warned, and at most seven days from its deadline at `now`.
    pub fn should_send_warning(&self, now: i64) -> (r: bool)
        ensures
            r == (self.status == DisputeStatus::Open && self.warning_sent_at is None
                && self.auto_resolve_at - now <= WARNING_LEAD_SECONDS),
    {
        self.is_open() && self.warning_sent_at.is_none() && (self.auto_resolve_at as i128) - (
        now as i128) <= WARNING_LEAD_SECONDS as i128
    }
}

/// `d` once resolved by `adjudicator` at `now`.
pub open spec fn resolved_dispute(
    d: Dispute,
    resolution: DisputeResolution,
    notes: Option<String>,
    adjudicator: usize,
    now: i64,
) -> Dispute {
    Dispute {
        status: DisputeStatus::Resolved,
        resolution: Some(resolution),
        resolution_notes: notes,
        resolved_by: Some(adjudicator),
        resolved_at: Some(now),
        ..d
    }
}

impl Market {
    /// Opens a dispute on a pending or shipped order: its escrow moves from held to disputed
    /// (left alone if no longer held), the dispute is due for automatic resolution ten days
    /// after `now`, and the order becomes disputed. Returns the dispute.
    pub fn open_dispute(
        &mut self,
        order_id: usize,
        initiator: String,
        reason: String,
        now: i64,
    ) -> (r: Result<usize, AppError>)
        requires
            old(self).wf(),
        ensures
            final(self).wf(),
            r is Ok <==> order_id < old(self).orders@.len() && old(self).orders@[order_id as int].is_confirmable(),
            r matches Err(e) ==> final(self).unchanged(old(self)) && e == (if order_id >= old(self).orders@.len() {
                AppError::OrderNotFound
            } else {
                AppError::OrderCannotBeDisputed
            }),
            r matches Ok(d) ==> {
                let o = old(self).orders@[order_id as int];
                let x = final(self).disputes@[d as int];
                let e = o.escrow_id;
                &&& d == old(self).disputes@.len()
                &&& final(self).disputes@ == old(self).disputes@.push(x)
                &&& x.order_id == order_id && x.escrow_id == e && x.initiated_by == initiator
                &&& x.reason == reason && x.status == DisputeStatus::Open
                &&& x.resolution is None && x.resolved_by is None && x.resolved_at is None
                &&& x.warning_sent_at is None && x.created_at == now
                &&& x.auto_resolve_at == after_days(now, DISPUTE_WINDOW_DAYS)
                &&& final(self).orders@ == old(self).orders@.update(
                    order_id as int,
                    Order { status: OrderStatus::Disputed, ..o },
                )
                &&& final(self).escrows@ == if old(self).escrows@[e as int].status == EscrowStatus::Held {
                    old(self).escrows@.update(
                        e as int,
                        Escrow { status: EscrowStatus::Disputed, ..old(self).escrows@[e as int] },
                    )
                } else {
                    old(self).escrows@
                }
                &&& final(self).users@ == old(self).users@
                &&& final(self).listings@ == old(self).listings@
                &&& final(self).cart_items@ == old(self).cart_items@
                &&& final(self).checkouts@ == old(self).checkouts@
                &&& final(self).checkout_items@ == old(self).checkout_items@
                &&& final(self).order_items@ == old(self).order_items@
                &&& final(self).evidence@ == old(self).evidence@
            },
    {
        if order_id >= self.orders.len() {
            return Err(AppError::OrderNotFound);
        }
        if !self.orders[order_id].can_dispute() {
            return Err(AppError::OrderCannotBeDisputed);
        }
        let e = self.orders[order_id].escrow_id;
        EscrowService::mark_disputed(self, e);
        let ghost mid = *self;
        let d = self.disputes.len();
        let dispute = Dispute {
            id: new_record_id(),
            order_id,
            escrow_id: e,
            initiated_by: initiator,
            reason,
            status: DisputeStatus::Open,
            resolution: None,
            resolution_notes: None,
            resolved_by: None,
            warning_sent_at: None,
            auto_resolve_at: add_days(now, DISPUTE_WINDOW_DAYS),
            created_at: now,
            resolved_at: None,
        };
        self.disputes.push(dispute);
        self.orders[order_id].status = OrderStatus::Disputed;
        proof {
            let nu = self.users@.len() as int;
            let ne = self.escrows@.len() as int;
            let no = self.orders@.len() as int;
            assert forall|i: int| 0 <= i < self.disputes@.len() implies {
                &&& (#[trigger] self.disputes@[i]).order_id < no
                &&& self.disputes@[i].escrow_id < ne
            } by {
                if i < d {
                    assert(self.disputes@[i] == mid.disputes@[i]);
                }
            }
            assert(disputes_wf(self.disputes@, no, ne));
            assert forall|i: int| 0 <= i < no implies {
                &&& (#[trigger] self.orders@[i]).escrow_id < ne
                &&& self.orders@[i].buyer < nu
                &&& self.orders@[i].seller < nu
            } by {
                assert(mid.orders@[i].escrow_id < ne);
            }
            assert(orders_wf(self.orders@, nu, ne));
            assert(self.orders@ =~= old(self).orders@.update(
                order_id as int,
                Order { status: OrderStatus::Disputed, ..old(self).orders@[order_id as int] },
            ));
        }
        Ok(d)
    }

    /// Adds a piece of evidence from `submitter` to an open dispute. Returns its handle.
    pub fn submit_evidence(
        &mut self,
        dispute_id: usize,
        submitter: usize,
        evidence_type: EvidenceType,
        content: String,
        now: i64,
    ) -> (r: Result<usize, AppError>)
        requires
            old(self).wf(),
        ensures
            final(self).wf(),
            r is Ok <==> dispute_id < old(self).disputes@.len() && old(self).disputes@[dispute_id as int].status
                == DisputeStatus::Open && submitter < old(self).users@.len(),
            r matches Err(e) ==> final(self).unchanged(old(self)) && e == (if dispute_id >= old(self).disputes@.len() {
                AppError::DisputeNotFound
            } else if old(self).disputes@[dispute_id as int].status != DisputeStatus::Open {
                AppError::DisputeAlreadyResolved
            } else {
                AppError::UserNotFound
            }),
            r matches Ok(k) ==> {
                let x = final(self).evidence@[k as int];
                &&& k == old(self).evidence@.len()
                &&& final(self).evidence@ == old(self).evidence@.push(x)
                &&& x.dispute_id == dispute_id && x.submitted_by == submitter
                &&& x.evidence_type == evidence_type && x.content == content && x.created_at == now
                &&& final(self).users@ == old(self).users@
                &&& final(self).listings@ == old(self).listings@
                &&& final(self).cart_items@ == old(self).cart_items@
                &&& final(self).checkout_items@ == old(self).checkout_items@
                &&& final(self).order_items@ == old(self).order_items@
                &&& final(self).escrows@ == old(self).escrows@
                &&& final(self).orders@ == old(self).orders@
                &&& final(self).disputes@ == old(self).disputes@
                &&& final(self).checkouts@ == old(self).checkouts@
            },
    {
        if dispute_id >= self.disputes.len() {
            return Err(AppError::DisputeNotFound);
        }
        if !self.disputes[dispute_id].is_open() {
            return Err(AppError::DisputeAlreadyResolved);
        }
        if submitter >= self.users.len() {
            return Err(AppError::UserNotFound);
        }
        let k = self.evidence.len();
        let item = DisputeEvidence {
            id: new_record_id(),
            dispute_id,
            submitted_by: submitter,
            evidence_type,
            content,
            created_at: now,
        };
        self.evidence.push(item);
        Ok(k)
    }

    /// An adjudicator settles an open dispute with the resolution named by `resolution`:
    /// the escrow engine moves the funds, then the dispute records the outcome and is
    /// resolved. Refused, changing nothing, for a resolved dispute, a text outside the
    /// resolution grammar, or an escrow the engine refuses.
    pub fn resolve_dispute(
        &mut self,
        dispute_id: usize,
        resolution: &str,
        adjudicator: usize,
        notes: Option<String>,
        now: i64,
    ) -> (r: Result<(), AppError>)
        requires
            old(self).wf(),
        ensures
            final(self).wf(),
            ({
                let d = old(self).disputes@[dispute_id as int];
                let parsed = parse_resolution(resolution@);
                &&& r is Ok <==> dispute_id < old(self).disputes@.len() && d.status == DisputeStatus::Open
                    && parsed is Some && resolvable(*old(self), d.escrow_id, parsed->0)
                &&& r matches Err(e) ==> final(self).unchanged(old(self)) && if dispute_id >= old(self).disputes@.len() {
                    e == AppError::DisputeNotFound
                } else if d.status != DisputeStatus::Open {
                    e == AppError::DisputeAlreadyResolved
                } else if parsed is None {
                    e matches AppError::InvalidResolution(t) && t@ == resolution@
                } else if d.escrow_id >= old(self).escrows@.len() || old(self).escrows@[d.escrow_id as int].status
                    != EscrowStatus::Disputed {
                    e == AppError::EscrowNotFound
                } else {
                    e == AppError::BalanceOverflow
                }
                &&& r is Ok ==> settled_by(*old(self), *final(self), d.escrow_id, parsed->0, now)
                    && final(self).disputes@ == old(self).disputes@.update(
                    dispute_id as int,
                    resolved_dispute(d, parsed->0, notes, adjudicator, now),
                )
            }),
    {
        if dispute_id >= self.disputes.len() {
            return Err(AppError::DisputeNotFound);
        }
        if !self.disputes[dispute_id].is_open() {
            return Err(AppError::DisputeAlreadyResolved);
        }
        let parsed = DisputeResolution::from_str(resolution);
        let res = match parsed {
            Some(res) => res,
            None => {
                return Err(AppError::InvalidResolution(String::from_str(resolution)));
            },
        };
        let e = self.disputes[dispute_id].escrow_id;
        match EscrowService::resolve_dispute(self, e, res, now) {
            Err(err) => {
                return Err(err);
            },
            Ok(()) => {},
        }
        let ghost mid = *self;
        let d = &mut self.disputes[dispute_id];
        d.status = DisputeStatus::Resolved;
        d.resolution = Some(res);
        d.resolution_notes = notes;
        d.resolved_by = Some(adjudicator);
        d.resolved_at = Some(now);
        proof {
            let ne = self.escrows@.len() as int;
            let no = self.orders@.len() as int;
            assert forall|i: int| 0 <= i < self.disputes@.len() implies {
                &&& (#[trigger] self.disputes@[i]).order_id < no
                &&& self.disputes@[i].escrow_id < ne
            } by {
                assert(mid.disputes@[i].order_id < no);
            }
            assert(disputes_wf(self.disputes@, no, ne));
            assert(self.disputes@ =~= old(self).disputes@.update(
                dispute_id as int,
                resolved_dispute(old(self).disputes@[dispute_id as int], res, notes, adjudicator, now),
            ));
        }
        Ok(())
    }
}

} // verus!
