//! Wallets: a balance per user and the append-only log of every change to it.

use vstd::prelude::*;

use crate::error::AppError;
use crate::status::{TransactionType, UserRole};
use crate::sys::new_record_id;

verus! {

/// One change to one wallet. Never changed or removed once written.
#[derive(Debug, Clone)]
pub struct WalletTransaction {
    pub id: String,
    pub transaction_type: TransactionType,
    /// The signed change: positive for a credit, negative for a debit.
    pub amount: i64,
    /// The balance right after this change.
    pub balance_after: i64,
    /// The escrow this change belongs to, if any.
    pub reference_id: Option<usize>,
    pub created_at: i64,
}

/// Sum of the signed amounts of a log.
pub open spec fn deltas_sum(log: Seq<WalletTransaction>) -> int
    decreases log.len(),
{
    if log.len() == 0 {
        0
    } else {
        deltas_sum(log.drop_last()) + log.last().amount
    }
}

/// A marketplace participant and their wallet.
#[derive(Debug, Clone)]
pub struct User {
    /// Stable public identifier, compared only as an opaque string.
    pub npub: String,
    pub role: UserRole,
    /// Smallest currency unit; never negative.
    pub wallet_balance: i64,
    /// This user's wallet log, oldest first.
    pub transactions: Vec<WalletTransaction>,
}

/// `new` is `old` with one more logged change of `delta`, described by the other arguments.
pub open spec fn logged_change(
    old: User,
    new: User,
    delta: int,
    kind: TransactionType,
    reference: Option<usize>,
    now: i64,
) -> bool {
    let t = new.transactions@.last();
    &&& new.npub == old.npub
    &&& new.role == old.role
    &&& new.wallet_balance == old.wallet_balance + delta
    &&& new.transactions@.len() == old.transactions@.len() + 1
    &&& new.transactions@.drop_last() == old.transactions@
    &&& t.amount == delta
    &&& t.transaction_type == kind
    &&& t.reference_id == reference
    &&& t.balance_after == new.wallet_balance
    &&& t.created_at == now
}

impl User {
    /// The balance is the running sum of the log, and no balance along the log was negative.
    pub open spec fn wf(&self) -> bool {
        &&& self.wallet_balance >= 0
        &&& self.wallet_balance == deltas_sum(self.transactions@)
        &&& forall|k: int|
            0 <= k < self.transactions@.len() ==> {
                &&& #[trigger] self.transactions@[k].balance_after == deltas_sum(
                    self.transactions@.subrange(0, k + 1),
                )
                &&& self.transactions@[k].balance_after >= 0
            }
    }

    /// A user with an empty wallet.
    pub fn new(npub: String, role: UserRole) -> (r: User)
        ensures
            r.wf(),
            r.npub == npub,
            r.role == role,
            r.wallet_balance == 0,
            r.transactions@.len() == 0,
    {
        User { npub, role, wallet_balance: 0, transactions: Vec::new() }
    }

    fn record(&mut self, delta: i64, kind: TransactionType, reference: Option<usize>, now: i64)
        requires
            old(self).wf(),
            0 <= old(self).wallet_balance + delta <= i64::MAX,
        ensures
            final(self).wf(),
            logged_change(*old(self), *final(self), delta as int, kind, reference, now),
    {
        let new_balance = self.wallet_balance + delta;
        let tx = WalletTransaction {
            id: new_record_id(),
            transaction_type: kind,
            amount: delta,
            balance_after: new_balance,
            reference_id: reference,
            created_at: now,
        };
        let ghost log = self.transactions@;
        self.wallet_balance = new_balance;
        self.transactions.push(tx);
        proof {
            let nlog = self.transactions@;
            assert(nlog.drop_last() =~= log);
            assert(nlog.subrange(0, nlog.len() as int) =~= nlog);
            assert forall|k: int| 0 <= k < nlog.len() implies {
                &&& #[trigger] nlog[k].balance_after == deltas_sum(nlog.subrange(0, k + 1))
                &&& nlog[k].balance_after >= 0
            } by {
                if k < log.len() {
                    assert(nlog.subrange(0, k + 1) =~= log.subrange(0, k + 1));
                    assert(nlog[k] == log[k]);
                }
            }
        }
    }

    /// Sellers and admins may sell.
    pub fn is_seller(&self) -> (r: bool)
        ensures
            r == (self.role == UserRole::Seller || self.role == UserRole::Admin),
    {
        self.role == UserRole::Seller || self.role == UserRole::Admin
    }

    /// Only admins may adjudicate.
    pub fn is_admin(&self) -> (r: bool)
        ensures
            r == (self.role == UserRole::Admin),
    {
        self.role == UserRole::Admin
    }

    /// Adds `amount` and logs `+amount`; returns the new balance. Fails only for a negative
    /// amount or one that would take the balance past `i64::MAX`.
    pub fn credit(
        &mut self,
        amount: i64,
        kind: TransactionType,
        reference: Option<usize>,
        now: i64,
    ) -> (r: Result<i64, AppError>)
        requires
            old(self).wf(),
        ensures
            final(self).wf(),
            r is Ok <==> amount >= 0 && old(self).wallet_balance + amount <= i64::MAX,
            r matches Ok(b) ==> b == final(self).wallet_balance && logged_change(
                *old(self),
                *final(self),
                amount as int,
                kind,
                reference,
                now,
            ),
            r matches Err(e) ==> *final(self) == *old(self) && e == (if amount < 0 {
                AppError::InvalidAmount
            } else {
                AppError::BalanceOverflow
            }),
    {
        if amount < 0 {
            return Err(AppError::InvalidAmount);
        }
        if self.wallet_balance > i64::MAX - amount {
            return Err(AppError::BalanceOverflow);
        }
        self.record(amount, kind, reference, now);
        Ok(self.wallet_balance)
    }

    /// Subtracts `amount` and logs `-amount` if the balance covers it; returns the new balance.
    /// A negative amount is refused.
    pub fn debit(
        &mut self,
        amount: i64,
        kind: TransactionType,
        reference: Option<usize>,
        now: i64,
    ) -> (r: Result<i64, AppError>)
        requires
            old(self).wf(),
        ensures
            final(self).wf(),
            r is Ok <==> amount >= 0 && old(self).wallet_balance >= amount,
            r matches Ok(b) ==> b == final(self).wallet_balance && logged_change(
                *old(self),
                *final(self),
                -amount,
                kind,
                reference,
                now,
            ),
            r matches Err(e) ==> *final(self) == *old(self) && e == (if amount < 0 {
                AppError::InvalidAmount
            } else {
                AppError::InsufficientBalanceDetails {
                    needed: amount as u64,
                    available: old(self).wallet_balance as u64,
                }
            }),
    {
        if amount < 0 {
            return Err(AppError::InvalidAmount);
        }
        if self.wallet_balance < amount {
            return Err(
                AppError::InsufficientBalanceDetails {
                    needed: amount as u64,
                    available: self.wallet_balance as u64,
                },
            );
        }
        self.record(-amount, kind, reference, now);
        Ok(self.wallet_balance)
    }
}

/// Whatever sequence of credits and debits a wallet went through, its balance equals the
/// sum of the amounts its log records, and neither it nor any balance along the log is
/// negative: `new` starts the invariant and `credit` and `debit` keep it.
pub proof fn lemma_balance_is_sum_of_log(u: User)
    requires
        u.wf(),
    ensures
        u.wallet_balance == deltas_sum(u.transactions@),
        u.wallet_balance >= 0,
        forall|k: int| 0 <= k < u.transactions@.len() ==> #[trigger] u.transactions@[k].balance_after >= 0,
{
}

} // verus!
