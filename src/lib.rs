//! Ledger, escrow and dispute rules of a peer-to-peer marketplace.

pub mod browsing_fee;
pub mod checkout;
pub mod config;
pub mod dispute;
pub mod error;
pub mod escrow;
pub mod ledger;
pub mod listing;
pub mod market;
pub mod order;
pub mod resolution;
pub mod seller;
pub mod status;
mod sys;
pub mod text;

pub use browsing_fee::{browsing_fee_layer, BrowsingFeeConfig, BrowsingFeeLayer, FeeDecision};
pub use checkout::{CheckoutItem, CheckoutSession, Payment};
pub use config::{Config, LightningConfig, MintConfig, SellerBondConfig};
pub use dispute::{Dispute, DisputeEvidence};
pub use error::AppError;
pub use escrow::{Escrow, EscrowService};
pub use ledger::{User, WalletTransaction};
pub use listing::{CartItem, Listing, ListingSearchQuery};
pub use market::Market;
pub use order::{Order, OrderItem};
pub use resolution::DisputeResolution;
pub use seller::{BondScope, SellerCategoryAccess};
pub use status::{
    CheckoutStatus, DisputeStatus, EscrowStatus, EvidenceType, OrderStatus, SellerCategory,
    TransactionType, UserRole,
};
