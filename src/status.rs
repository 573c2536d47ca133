//! The closed sets of states and kinds that records move through, and their stored names.

use vstd::prelude::*;

use crate::text::str_equals;

verus! {

/// Lifecycle of an escrow: `Held` moves to `Released`, `Refunded` or `Disputed`;
/// `Disputed` moves to `Released` or `Refunded`; the other two are final.
#[derive(Debug, Clone, Copy, PartialEq, Eq, Structural)]
pub enum EscrowStatus {
    Held,
    Released,
    Refunded,
    Disputed,
}

/// Lifecycle of an order.
#[derive(Debug, Clone, Copy, PartialEq, Eq, Structural)]
pub enum OrderStatus {
    Pending,
    Shipped,
    Completed,
    Disputed,
    Refunded,
}

/// Lifecycle of a dispute: `Open` moves to `Resolved`, which is final.
#[derive(Debug, Clone, Copy, PartialEq, Eq, Structural)]
pub enum DisputeStatus {
    Open,
    Resolved,
}

/// Lifecycle of a checkout session.
#[derive(Debug, Clone, Copy, PartialEq, Eq, Structural)]
pub enum CheckoutStatus {
    Pending,
    Paid,
    Expired,
}

/// Kind of a piece of dispute evidence.
#[derive(Debug, Clone, Copy, PartialEq, Eq, Structural)]
pub enum EvidenceType {
    Text,
    Image,
}

/// What a wallet transaction was for.
#[derive(Debug, Clone, Copy, PartialEq, Eq, Structural)]
pub enum TransactionType {
    Deposit,
    Withdraw,
    Payment,
    Receipt,
    Fee,
    Bond,
    EscrowHold,
    EscrowRelease,
    EscrowRefund,
}

/// What a user may do.
#[derive(Debug, Clone, Copy, PartialEq, Eq, Structural)]
pub enum UserRole {
    Buyer,
    Seller,
    Admin,
}

/// A kind of goods a seller may be bonded for.
#[derive(Debug, Clone, Copy, PartialEq, Eq, Structural)]
pub enum SellerCategory {
    Digital,
    Physical,
    Services,
}

pub open spec fn escrow_status_of(s: Seq<char>) -> EscrowStatus {
    if s == "released"@ {
        EscrowStatus::Released
    } else if s == "refunded"@ {
        EscrowStatus::Refunded
    } else if s == "disputed"@ {
        EscrowStatus::Disputed
    } else {
        EscrowStatus::Held
    }
}

pub open spec fn escrow_status_name(s: EscrowStatus) -> Seq<char> {
    match s {
        EscrowStatus::Held => "held"@,
        EscrowStatus::Released => "released"@,
        EscrowStatus::Refunded => "refunded"@,
        EscrowStatus::Disputed => "disputed"@,
    }
}

/// Reads a stored escrow status; an unknown name reads as `Held`.
impl From<String> for EscrowStatus {
    fn from(s: String) -> (r: Self)
        ensures
            r == escrow_status_of(s@),
    {
        if str_equals(s.as_str(), "released") {
            EscrowStatus::Released
        } else if str_equals(s.as_str(), "refunded") {
            EscrowStatus::Refunded
        } else if str_equals(s.as_str(), "disputed") {
            EscrowStatus::Disputed
        } else {
            EscrowStatus::Held
        }
    }
}

impl vstd::std_specs::convert::FromSpecImpl<String> for EscrowStatus {
    open spec fn obeys_from_spec() -> bool {
        true
    }

    open spec fn from_spec(s: String) -> EscrowStatus {
        escrow_status_of(s@)
    }
}

/// The stored name of an escrow status.
impl From<EscrowStatus> for String {
    fn from(s: EscrowStatus) -> (r: String)
        ensures
            r@ == escrow_status_name(s),
    {
        match s {
            EscrowStatus::Held => String::from_str("held"),
            EscrowStatus::Released => String::from_str("released"),
            EscrowStatus::Refunded => String::from_str("refunded"),
            EscrowStatus::Disputed => String::from_str("disputed"),
        }
    }
}

impl vstd::std_specs::convert::FromSpecImpl<EscrowStatus> for String {
    open spec fn obeys_from_spec() -> bool {
        false
    }

    open spec fn from_spec(s: EscrowStatus) -> String {
        arbitrary()
    }
}

pub open spec fn order_status_of(s: Seq<char>) -> OrderStatus {
    if s == "shipped"@ {
        OrderStatus::Shipped
    } else if s == "completed"@ {
        OrderStatus::Completed
    } else if s == "disputed"@ {
        OrderStatus::Disputed
    } else if s == "refunded"@ {
        OrderStatus::Refunded
    } else {
        OrderStatus::Pending
    }
}

/// Reads a stored order status; an unknown name reads as `Pending`.
impl From<String> for OrderStatus {
    fn from(s: String) -> (r: Self)
        ensures
            r == order_status_of(s@),
    {
        if str_equals(s.as_str(), "shipped") {
            OrderStatus::Shipped
        } else if str_equals(s.as_str(), "completed") {
            OrderStatus::Completed
        } else if str_equals(s.as_str(), "disputed") {
            OrderStatus::Disputed
        } else if str_equals(s.as_str(), "refunded") {
            OrderStatus::Refunded
        } else {
            OrderStatus::Pending
        }
    }
}

impl vstd::std_specs::convert::FromSpecImpl<String> for OrderStatus {
    open spec fn obeys_from_spec() -> bool {
        true
    }

    open spec fn from_spec(s: String) -> OrderStatus {
        order_status_of(s@)
    }
}

pub open spec fn order_status_name(s: OrderStatus) -> Seq<char> {
    match s {
        OrderStatus::Pending => "pending"@,
        OrderStatus::Shipped => "shipped"@,
        OrderStatus::Completed => "completed"@,
        OrderStatus::Disputed => "disputed"@,
        OrderStatus::Refunded => "refunded"@,
    }
}

/// The stored name of an order status.
impl From<OrderStatus> for String {
    fn from(s: OrderStatus) -> (r: String)
        ensures
            r@ == order_status_name(s),
    {
        match s {
            OrderStatus::Pending => String::from_str("pending"),
            OrderStatus::Shipped => String::from_str("shipped"),
            OrderStatus::Completed => String::from_str("completed"),
            OrderStatus::Disputed => String::from_str("disputed"),
            OrderStatus::Refunded => String::from_str("refunded"),
        }
    }
}

impl vstd::std_specs::convert::FromSpecImpl<OrderStatus> for String {
    open spec fn obeys_from_spec() -> bool {
        false
    }

    open spec fn from_spec(s: OrderStatus) -> String {
        arbitrary()
    }
}

pub open spec fn dispute_status_of(s: Seq<char>) -> DisputeStatus {
    if s == "resolved"@ {
        DisputeStatus::Resolved
    } else {
        DisputeStatus::Open
    }
}

/// Reads a stored dispute status; an unknown name reads as `Open`.
impl From<String> for DisputeStatus {
    fn from(s: String) -> (r: Self)
        ensures
            r == dispute_status_of(s@),
    {
        if str_equals(s.as_str(), "resolved") {
            DisputeStatus::Resolved
        } else {
            DisputeStatus::Open
        }
    }
}

impl vstd::std_specs::convert::FromSpecImpl<String> for DisputeStatus {
    open spec fn obeys_from_spec() -> bool {
        true
    }

    open spec fn from_spec(s: String) -> DisputeStatus {
        dispute_status_of(s@)
    }
}

pub open spec fn checkout_status_of(s: Seq<char>) -> CheckoutStatus {
    if s == "paid"@ {
        CheckoutStatus::Paid
    } else if s == "expired"@ {
        CheckoutStatus::Expired
    } else {
        CheckoutStatus::Pending
    }
}

/// Reads a stored checkout status; an unknown name reads as `Pending`.
impl From<String> for CheckoutStatus {
    fn from(s: String) -> (r: Self)
        ensures
            r == checkout_status_of(s@),
    {
        if str_equals(s.as_str(), "paid") {
            CheckoutStatus::Paid
        } else if str_equals(s.as_str(), "expired") {
            CheckoutStatus::Expired
        } else {
            CheckoutStatus::Pending
        }
    }
}

impl vstd::std_specs::convert::FromSpecImpl<String> for CheckoutStatus {
    open spec fn obeys_from_spec() -> bool {
        true
    }

    open spec fn from_spec(s: String) -> CheckoutStatus {
        checkout_status_of(s@)
    }
}

pub open spec fn evidence_type_of(s: Seq<char>) -> EvidenceType {
    if s == "image"@ {
        EvidenceType::Image
    } else {
        EvidenceType::Text
    }
}

/// Reads a stored evidence kind; an unknown name reads as `Text`.
impl From<String> for EvidenceType {
    fn from(s: String) -> (r: Self)
        ensures
            r == evidence_type_of(s@),
    {
        if str_equals(s.as_str(), "image") {
            EvidenceType::Image
        } else {
            EvidenceType::Text
        }
    }
}

impl vstd::std_specs::convert::FromSpecImpl<String> for EvidenceType {
    open spec fn obeys_from_spec() -> bool {
        true
    }

    open spec fn from_spec(s: String) -> EvidenceType {
        evidence_type_of(s@)
    }
}

pub open spec fn user_role_of(s: Seq<char>) -> UserRole {
    if s == "seller"@ {
        UserRole::Seller
    } else if s == "admin"@ {
        UserRole::Admin
    } else {
        UserRole::Buyer
    }
}

/// Reads a stored role; an unknown name reads as `Buyer`.
impl From<String> for UserRole {
    fn from(s: String) -> (r: Self)
        ensures
            r == user_role_of(s@),
    {
        if str_equals(s.as_str(), "seller") {
            UserRole::Seller
        } else if str_equals(s.as_str(), "admin") {
            UserRole::Admin
        } else {
            UserRole::Buyer
        }
    }
}

impl vstd::std_specs::convert::FromSpecImpl<String> for UserRole {
    open spec fn obeys_from_spec() -> bool {
        true
    }

    open spec fn from_spec(s: String) -> UserRole {
        user_role_of(s@)
    }
}

pub open spec fn user_role_name(s: UserRole) -> Seq<char> {
    match s {
        UserRole::Buyer => "buyer"@,
        UserRole::Seller => "seller"@,
        UserRole::Admin => "admin"@,
    }
}

/// The stored name of a role.
impl From<UserRole> for String {
    fn from(s: UserRole) -> (r: String)
        ensures
            r@ == user_role_name(s),
    {
        match s {
            UserRole::Buyer => String::from_str("buyer"),
            UserRole::Seller => String::from_str("seller"),
            UserRole::Admin => String::from_str("admin"),
        }
    }
}

impl vstd::std_specs::convert::FromSpecImpl<UserRole> for String {
    open spec fn obeys_from_spec() -> bool {
        false
    }

    open spec fn from_spec(s: UserRole) -> String {
        arbitrary()
    }
}

pub open spec fn seller_category_of(s: Seq<char>) -> SellerCategory {
    if s == "physical"@ {
        SellerCategory::Physical
    } else if s == "services"@ {
        SellerCategory::Services
    } else {
        SellerCategory::Digital
    }
}

/// Reads a stored category; an unknown name reads as `Digital`.
impl From<String> for SellerCategory {
    fn from(s: String) -> (r: Self)
        ensures
            r == seller_category_of(s@),
    {
        if str_equals(s.as_str(), "physical") {
            SellerCategory::Physical
        } else if str_equals(s.as_str(), "services") {
            SellerCategory::Services
        } else {
            SellerCategory::Digital
        }
    }
}

impl vstd::std_specs::convert::FromSpecImpl<String> for SellerCategory {
    open spec fn obeys_from_spec() -> bool {
        true
    }

    open spec fn from_spec(s: String) -> SellerCategory {
        seller_category_of(s@)
    }
}

pub open spec fn seller_category_name(s: SellerCategory) -> Seq<char> {
    match s {
        SellerCategory::Digital => "digital"@,
        SellerCategory::Physical => "physical"@,
        SellerCategory::Services => "services"@,
    }
}

/// The stored name of a category.
impl From<SellerCategory> for String {
    fn from(s: SellerCategory) -> (r: String)
        ensures
            r@ == seller_category_name(s),
    {
        match s {
            SellerCategory::Digital => String::from_str("digital"),
            SellerCategory::Physical => String::from_str("physical"),
            SellerCategory::Services => String::from_str("services"),
        }
    }
}

impl vstd::std_specs::convert::FromSpecImpl<SellerCategory> for String {
    open spec fn obeys_from_spec() -> bool {
        false
    }

    open spec fn from_spec(s: SellerCategory) -> String {
        arbitrary()
    }
}

pub open spec fn transaction_type_name(s: TransactionType) -> Seq<char> {
    match s {
        TransactionType::Deposit => "deposit"@,
        TransactionType::Withdraw => "withdraw"@,
        TransactionType::Payment => "payment"@,
        TransactionType::Receipt => "receipt"@,
        TransactionType::Fee => "fee"@,
        TransactionType::Bond => "bond"@,
        TransactionType::EscrowHold => "escrow_hold"@,
        TransactionType::EscrowRelease => "escrow_release"@,
        TransactionType::EscrowRefund => "escrow_refund"@,
    }
}

/// The stored name of a transaction kind.
impl From<TransactionType> for String {
    fn from(s: TransactionType) -> (r: String)
        ensures
            r@ == transaction_type_name(s),
    {
        match s {
            TransactionType::Deposit => String::from_str("deposit"),
            TransactionType::Withdraw => String::from_str("withdraw"),
            TransactionType::Payment => String::from_str("payment"),
            TransactionType::Receipt => String::from_str("receipt"),
            TransactionType::Fee => String::from_str("fee"),
            TransactionType::Bond => String::from_str("bond"),
            TransactionType::EscrowHold => String::from_str("escrow_hold"),
            TransactionType::EscrowRelease => String::from_str("escrow_release"),
            TransactionType::EscrowRefund => String::from_str("escrow_refund"),
        }
    }
}

impl vstd::std_specs::convert::FromSpecImpl<TransactionType> for String {
    open spec fn obeys_from_spec() -> bool {
        false
    }

    open spec fn from_spec(s: TransactionType) -> String {
        arbitrary()
    }
}

} // verus!
