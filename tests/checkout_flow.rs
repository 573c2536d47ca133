use marketplace::{
    AppError, CheckoutStatus, EscrowStatus, ListingSearchQuery, Market, OrderStatus, Payment,
    SellerCategory, TransactionType, UserRole,
};

const HOUR: i64 = 3600;

/// Buyer 0 with `funds`, sellers 1 and 2.
fn market(funds: i64) -> Market {
    let mut m = Market::new();
    m.add_user("npub1buyer".to_string(), UserRole::Buyer);
    m.add_user("npub1alice".to_string(), UserRole::Seller);
    m.add_user("npub1bob".to_string(), UserRole::Seller);
    if funds > 0 {
        m.credit_wallet(0, funds, TransactionType::Deposit, None, 0).unwrap();
    }
    m
}

fn listing(m: &mut Market, seller: usize, price: i64) -> usize {
    m.add_listing(seller, "Item".to_string(), "An item".to_string(), price, SellerCategory::Digital, None, 0)
        .unwrap()
}

#[test]
fn checkout_locks_prices_and_fee() {
    let mut m = market(0);
    let a = listing(&mut m, 1, 1000);
    let b = listing(&mut m, 2, 550);
    m.add_to_cart(0, a, 1).unwrap();
    m.add_to_cart(0, b, 1).unwrap();
    let c = m.start_checkout(0, 1, 3, 10).unwrap();
    {
        let s = &m.checkouts[c];
        assert_eq!(s.status, CheckoutStatus::Pending);
        assert_eq!(s.total_amount, 1550);
        assert_eq!(s.fee_amount, 15);
        assert_eq!(s.expires_at, 10 + 3 * HOUR);
    }
    assert_eq!(m.checkout_items.len(), 2);
    assert_eq!(m.checkout_items[0].locked_price, 1000);
    assert_eq!(m.checkout_items[1].seller, 2);
    // Later price edits do not reach the lock.
    m.listings[a].price = 5000;
    assert_eq!(m.checkout_items[0].locked_price, 1000);
    // A live session is returned again unchanged.
    assert_eq!(m.start_checkout(0, 1, 3, 20), Ok(c));
    assert_eq!(m.checkouts.len(), 1);
    assert_eq!(m.checkouts[c].time_remaining(10 + HOUR), 2 * HOUR);
}

#[test]
fn checkout_drops_unavailable_listings() {
    let mut m = market(0);
    let a = listing(&mut m, 1, 100);
    let b = listing(&mut m, 2, 200);
    m.add_to_cart(0, a, 1).unwrap();
    m.add_to_cart(0, b, 1).unwrap();
    m.listings[b].stock = Some(0);
    let c = m.start_checkout(0, 0, 3, 2).unwrap();
    assert_eq!(m.checkouts[c].total_amount, 100);
    assert_eq!(m.checkout_items.len(), 1);
    assert_eq!(m.checkout_items[0].listing_id, a);
}

#[test]
fn checkout_needs_a_cart() {
    let mut m = market(0);
    assert_eq!(m.start_checkout(0, 1, 3, 0), Err(AppError::CartEmpty));
    assert_eq!(m.start_checkout(9, 1, 3, 0), Err(AppError::UserNotFound));
    assert!(m.checkouts.is_empty());
}

#[test]
fn cart_refuses_duplicates_and_unavailable() {
    let mut m = market(0);
    let a = listing(&mut m, 1, 100);
    m.add_to_cart(0, a, 1).unwrap();
    assert_eq!(m.add_to_cart(0, a, 1), Err(AppError::ItemAlreadyInCart));
    m.listings[a].is_active = false;
    assert_eq!(m.add_to_cart(2, a, 1), Err(AppError::ListingNotAvailable));
    assert_eq!(m.add_to_cart(0, 99, 1), Err(AppError::ListingNotFound));
    assert_eq!(m.cart_items.len(), 1);
    assert_eq!(
        m.add_listing(1, "Free".to_string(), "x".to_string(), 0, SellerCategory::Digital, None, 0),
        Err(AppError::InvalidAmount)
    );
}

#[test]
fn completing_fans_out_one_escrow_per_seller() {
    let mut m = market(5000);
    let a1 = listing(&mut m, 1, 1000);
    let b = listing(&mut m, 2, 500);
    let a2 = listing(&mut m, 1, 300);
    for l in [a1, b, a2] {
        m.add_to_cart(0, l, 1).unwrap();
    }
    let c = m.start_checkout(0, 1, 3, 10).unwrap();
    assert_eq!(m.checkouts[c].fee_amount, 18);
    let orders = m.complete_checkout(c, Payment::Wallet, 10, 20).unwrap();
    assert_eq!(orders.len(), 2);
    assert_eq!(m.checkouts[c].status, CheckoutStatus::Paid);
    assert_eq!(m.checkouts[c].paid_at, Some(20));
    assert_eq!(m.users[0].wallet_balance, 5000 - 1800 - 18);
    let o1 = &m.orders[orders[0]];
    let o2 = &m.orders[orders[1]];
    assert_eq!((o1.seller, o2.seller), (1, 2));
    assert_eq!(o1.status, OrderStatus::Pending);
    assert_eq!(m.escrows[o1.escrow_id].amount, 1300);
    assert_eq!(m.escrows[o2.escrow_id].amount, 500);
    assert_eq!(m.escrows[o1.escrow_id].status, EscrowStatus::Held);
    assert_eq!(m.order_items.iter().filter(|i| i.order_id == orders[0]).count(), 2);
    assert!(m.cart_items.is_empty());
    let kinds: Vec<TransactionType> = m.users[0].transactions.iter().map(|t| t.transaction_type).collect();
    assert_eq!(
        kinds,
        vec![TransactionType::Deposit, TransactionType::Fee, TransactionType::EscrowHold, TransactionType::EscrowHold]
    );
    // Paying again is refused.
    assert_eq!(m.complete_checkout(c, Payment::Wallet, 10, 21), Err(AppError::PriceLockExpired));
}

#[test]
fn expired_price_lock_refuses_payment() {
    let mut m = market(5000);
    let a = listing(&mut m, 1, 1000);
    m.add_to_cart(0, a, 1).unwrap();
    let c = m.start_checkout(0, 1, 3, 0).unwrap();
    assert!(m.checkouts[c].is_expired(3 * HOUR));
    assert_eq!(m.complete_checkout(c, Payment::Wallet, 10, 3 * HOUR), Err(AppError::PriceLockExpired));
    assert!(m.escrows.is_empty());
    assert!(m.orders.is_empty());
    assert_eq!(m.users[0].wallet_balance, 5000);
    assert_eq!(m.checkouts[c].status, CheckoutStatus::Pending);
    assert_eq!(m.cart_items.len(), 1);
}

#[test]
fn wallet_must_cover_total_and_fee() {
    let mut m = market(1009);
    let a = listing(&mut m, 1, 1000);
    m.add_to_cart(0, a, 1).unwrap();
    let c = m.start_checkout(0, 1, 3, 0).unwrap();
    assert_eq!(
        m.complete_checkout(c, Payment::Wallet, 10, 1),
        Err(AppError::InsufficientBalanceDetails { needed: 1010, available: 1009 })
    );
    assert!(m.escrows.is_empty());
    assert_eq!(m.users[0].wallet_balance, 1009);
}

#[test]
fn token_payment_keeps_surplus_in_wallet() {
    let mut m = market(0);
    let a = listing(&mut m, 1, 1000);
    m.add_to_cart(0, a, 1).unwrap();
    let c = m.start_checkout(0, 1, 3, 0).unwrap();
    assert_eq!(
        m.complete_checkout(c, Payment::Token { amount: 1000 }, 10, 1),
        Err(AppError::InsufficientBalanceDetails { needed: 1010, available: 1000 })
    );
    let orders = m.complete_checkout(c, Payment::Token { amount: 1100 }, 10, 1).unwrap();
    assert_eq!(orders.len(), 1);
    assert_eq!(m.users[0].wallet_balance, 90);
    assert_eq!(m.escrows[0].amount, 1000);
}

#[test]
fn search_paging() {
    let mut q = ListingSearchQuery {
        q: None,
        category: None,
        min_price: None,
        max_price: None,
        seller: None,
        page: None,
        per_page: None,
    };
    assert_eq!((q.page(), q.per_page(), q.offset()), (1, 20, 0));
    q.page = Some(0);
    q.per_page = Some(500);
    assert_eq!((q.page(), q.per_page(), q.offset()), (1, 100, 0));
    q.page = Some(3);
    q.per_page = Some(25);
    assert_eq!(q.offset(), 50);
    q.page = Some(u32::MAX);
    q.per_page = Some(100);
    assert_eq!(q.offset(), u32::MAX);
}

#[test]
fn listing_availability() {
    let mut m = market(0);
    let a = listing(&mut m, 1, 100);
    let l = &m.listings[a];
    assert_eq!(l.expires_at, 30 * 86400);
    assert!(l.is_available(0));
    assert!(!l.is_available(30 * 86400));
    assert!(l.is_expired(30 * 86400));
}

#[test]
fn checkout_logs_every_wallet_change_and_records_items() {
    let mut m = market(0);
    let a = listing(&mut m, 1, 1000);
    let b = listing(&mut m, 2, 500);
    m.add_to_cart(0, a, 1).unwrap();
    m.add_to_cart(0, b, 1).unwrap();
    let c = m.start_checkout(0, 2, 3, 0).unwrap();
    let orders = m.complete_checkout(c, Payment::Token { amount: 2000 }, 10, 1).unwrap();
    let log: Vec<(TransactionType, i64)> =
        m.users[0].transactions.iter().map(|t| (t.transaction_type, t.amount)).collect();
    assert_eq!(
        log,
        vec![
            (TransactionType::Deposit, 2000),
            (TransactionType::Fee, -30),
            (TransactionType::EscrowHold, -1000),
            (TransactionType::EscrowHold, -500),
        ]
    );
    let sum: i64 = log.iter().map(|(_, a)| a).sum();
    assert_eq!(sum, m.users[0].wallet_balance);
    assert_eq!(m.order_items.len(), 2);
    assert_eq!(m.order_items[0].order_id, orders[0]);
    assert_eq!((m.order_items[0].listing_id, m.order_items[0].price), (a, 1000));
    assert_eq!((m.order_items[1].listing_id, m.order_items[1].price, m.order_items[1].order_id), (b, 500, orders[1]));
}
