//! Errors the marketplace reports to its callers.

use vstd::prelude::*;

verus! {

/// Why an operation was refused. A refused operation leaves every record as it was.
#[derive(Debug, Clone, PartialEq, Eq)]
pub enum AppError {
    /// The caller is not the party the operation belongs to.
    NotAuthorized,
    /// Only a seller may do this.
    NotASeller,
    /// The seller holds this category already.
    BondAlreadyPaid,
    /// The wallet does not hold the bond.
    InsufficientBalance,
    /// No user has the given handle.
    UserNotFound,
    /// No listing has the given handle.
    ListingNotFound,
    /// The listing is inactive, expired or out of stock.
    ListingNotAvailable,
    /// The listing is in the user's cart already.
    ItemAlreadyInCart,
    /// No order has the given handle.
    OrderNotFound,
    /// The order is no longer pending or shipped.
    OrderAlreadyCompleted,
    /// Only a pending or shipped order can be disputed.
    OrderCannotBeDisputed,
    /// The user's cart holds nothing to check out.
    CartEmpty,
    /// The checkout session is not pending or its price lock has run out.
    PriceLockExpired,
    /// A debit of `needed` was asked of a balance of `available`.
    InsufficientBalanceDetails { needed: u64, available: u64 },
    /// No escrow has the given handle, or it is not in the state the operation needs.
    EscrowNotFound,
    /// The escrow is not held any more.
    EscrowAlreadyReleased,
    /// The escrow is neither held nor disputed.
    EscrowAlreadyRefunded,
    /// No dispute has the given handle.
    DisputeNotFound,
    /// The dispute was resolved before.
    DisputeAlreadyResolved,
    /// The text does not name a resolution; it carries that text.
    InvalidResolution(String),
    /// An amount is negative, or an escrow or listing amount is not positive.
    InvalidAmount,
    /// The result would not fit the ledger's integer range.
    BalanceOverflow,
}

} // verus!
