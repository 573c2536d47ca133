use marketplace::{
    AppError, BondScope, Market, SellerBondConfig, SellerCategory, TransactionType, UserRole,
};

fn bonds() -> SellerBondConfig {
    SellerBondConfig { digital: 300, physical: 400, services: 500, all: 900 }
}

fn market(funds: i64) -> Market {
    let mut m = Market::new();
    m.add_user("npub1someone".to_string(), UserRole::Buyer);
    if funds > 0 {
        m.credit_wallet(0, funds, TransactionType::Deposit, None, 0).unwrap();
    }
    m
}

#[test]
fn becoming_a_seller_pays_the_bond() {
    let mut m = market(1000);
    m.become_seller(0, BondScope::One(SellerCategory::Physical), bonds(), 5).unwrap();
    assert_eq!(m.users[0].role, UserRole::Seller);
    assert!(m.users[0].is_seller() && !m.users[0].is_admin());
    assert_eq!(m.users[0].wallet_balance, 600);
    let t = m.users[0].transactions.last().unwrap();
    assert_eq!((t.amount, t.transaction_type), (-400, TransactionType::Bond));
    assert_eq!(m.seller_categories.len(), 1);
    assert_eq!(m.seller_categories[0].category, SellerCategory::Physical);
    assert_eq!(m.seller_categories[0].bond_paid, 400);
    // Already a seller: nothing happens.
    m.become_seller(0, BondScope::All, bonds(), 6).unwrap();
    assert_eq!(m.users[0].wallet_balance, 600);
}

#[test]
fn all_categories_bond_splits_across_three() {
    let mut m = market(1000);
    m.become_seller(0, BondScope::All, bonds(), 5).unwrap();
    assert_eq!(m.users[0].wallet_balance, 100);
    let paid: Vec<(SellerCategory, i64)> =
        m.seller_categories.iter().map(|a| (a.category, a.bond_paid)).collect();
    assert_eq!(
        paid,
        vec![(SellerCategory::Digital, 300), (SellerCategory::Physical, 300), (SellerCategory::Services, 300)]
    );
}

#[test]
fn bond_needs_funds() {
    let mut m = market(299);
    assert_eq!(
        m.become_seller(0, BondScope::One(SellerCategory::Digital), bonds(), 5),
        Err(AppError::InsufficientBalance)
    );
    assert_eq!(m.users[0].role, UserRole::Buyer);
    assert_eq!(m.users[0].wallet_balance, 299);
    assert_eq!(
        m.become_seller(3, BondScope::All, bonds(), 5),
        Err(AppError::UserNotFound)
    );
}

#[test]
fn buying_more_categories() {
    let mut m = market(2000);
    assert_eq!(m.buy_category(0, SellerCategory::Digital, bonds(), 1), Err(AppError::NotASeller));
    m.become_seller(0, BondScope::One(SellerCategory::Digital), bonds(), 1).unwrap();
    assert_eq!(m.buy_category(0, SellerCategory::Digital, bonds(), 2), Err(AppError::BondAlreadyPaid));
    m.buy_category(0, SellerCategory::Services, bonds(), 2).unwrap();
    assert_eq!(m.users[0].wallet_balance, 2000 - 300 - 500);
    assert_eq!(m.seller_categories.len(), 2);
    assert_eq!(bonds().bond(BondScope::One(SellerCategory::Services)), 500);
}
