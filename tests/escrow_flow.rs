use marketplace::{
    AppError, DisputeStatus, EscrowService, EscrowStatus, Market, OrderStatus, Payment,
    SellerCategory, TransactionType, UserRole,
};

const DAY: i64 = 86400;

fn deposit(m: &mut Market, user: usize, amount: i64) {
    m.credit_wallet(user, amount, TransactionType::Deposit, None, 0).unwrap();
}

/// A market with a buyer (handle 0) holding `funds` and a seller (handle 1).
fn market_with(funds: i64) -> Market {
    let mut m = Market::new();
    assert_eq!(m.add_user("npub1buyer".to_string(), UserRole::Buyer), 0);
    assert_eq!(m.add_user("npub1seller".to_string(), UserRole::Seller), 1);
    if funds > 0 {
        deposit(&mut m, 0, funds);
    }
    m
}

/// Buyer 0 buys one listing of seller 1 at `price` with no fee; returns (escrow, order).
fn bought(m: &mut Market, price: i64, now: i64) -> (usize, usize) {
    let l = m
        .add_listing(1, "Widget".to_string(), "A widget".to_string(), price, SellerCategory::Physical, None, now)
        .unwrap();
    m.add_to_cart(0, l, now).unwrap();
    let c = m.start_checkout(0, 0, 3, now).unwrap();
    let orders = m.complete_checkout(c, Payment::Wallet, 10, now).unwrap();
    assert_eq!(orders.len(), 1);
    (m.orders[orders[0]].escrow_id, orders[0])
}

fn log_sum(m: &Market, u: usize) -> i64 {
    m.users[u].transactions.iter().map(|t| t.amount).sum()
}

#[test]
fn credit_and_debit_keep_balance_equal_to_log() {
    let mut m = market_with(0);
    assert_eq!(m.credit_wallet(0, 500, TransactionType::Deposit, None, 1), Ok(500));
    assert_eq!(m.deduct_wallet(0, 200, TransactionType::Withdraw, None, 2), Ok(300));
    assert_eq!(m.credit_wallet(0, 50, TransactionType::Receipt, None, 3), Ok(350));
    assert_eq!(
        m.deduct_wallet(0, 351, TransactionType::Payment, None, 4),
        Err(AppError::InsufficientBalanceDetails { needed: 351, available: 350 })
    );
    assert_eq!(m.deduct_wallet(0, 350, TransactionType::Payment, None, 5), Ok(0));
    let u = &m.users[0];
    assert_eq!(u.wallet_balance, 0);
    assert_eq!(u.transactions.len(), 4);
    assert_eq!(log_sum(&m, 0), u.wallet_balance);
    let after: Vec<i64> = u.transactions.iter().map(|t| t.balance_after).collect();
    assert_eq!(after, vec![500, 300, 350, 0]);
    assert_eq!(u.transactions[1].amount, -200);
    assert_eq!(u.transactions[1].transaction_type, TransactionType::Withdraw);
}

#[test]
fn ledger_refuses_bad_amounts_and_users() {
    let mut m = market_with(100);
    assert_eq!(m.credit_wallet(0, -1, TransactionType::Deposit, None, 0), Err(AppError::InvalidAmount));
    assert_eq!(m.deduct_wallet(0, -5, TransactionType::Payment, None, 0), Err(AppError::InvalidAmount));
    assert_eq!(m.credit_wallet(7, 10, TransactionType::Deposit, None, 0), Err(AppError::UserNotFound));
    assert_eq!(m.credit_wallet(0, i64::MAX, TransactionType::Deposit, None, 0), Err(AppError::BalanceOverflow));
    assert_eq!(m.users[0].wallet_balance, 100);
    assert_eq!(m.users[0].transactions.len(), 1);
}

#[test]
fn zero_amounts_are_logged() {
    let mut m = market_with(0);
    assert_eq!(m.deduct_wallet(0, 0, TransactionType::Payment, None, 1), Ok(0));
    assert_eq!(m.credit_wallet(0, 0, TransactionType::Receipt, None, 2), Ok(0));
    assert_eq!(m.users[0].transactions.len(), 2);
    assert_eq!(m.users[0].transactions[0].amount, 0);
    assert_eq!(m.deduct_wallet(0, 1, TransactionType::Payment, None, 3),
        Err(AppError::InsufficientBalanceDetails { needed: 1, available: 0 }));
}

#[test]
fn transaction_ids_are_uuids() {
    let m = market_with(100);
    let id = &m.users[0].transactions[0].id;
    assert_eq!(id.len(), 36);
    assert_eq!(id.matches('-').count(), 4);
}

#[test]
fn create_escrow_debits_buyer_and_holds() {
    let mut m = market_with(1000);
    let e = EscrowService::create_escrow(&mut m, 0, 1, 1000, 10, 5).unwrap();
    assert_eq!(m.users[0].wallet_balance, 0);
    let x = &m.escrows[e];
    assert_eq!(x.status, EscrowStatus::Held);
    assert_eq!(x.amount, 1000);
    assert_eq!(x.auto_release_at, 5 + 10 * DAY);
    assert_eq!(x.id.len(), 36);
    let t = m.users[0].transactions.last().unwrap();
    assert_eq!((t.amount, t.transaction_type, t.reference_id), (-1000, TransactionType::EscrowHold, Some(e)));
}

#[test]
fn create_escrow_is_all_or_nothing() {
    let mut m = market_with(999);
    assert_eq!(
        EscrowService::create_escrow(&mut m, 0, 1, 1000, 10, 5),
        Err(AppError::InsufficientBalanceDetails { needed: 1000, available: 999 })
    );
    assert!(m.escrows.is_empty());
    assert_eq!(m.users[0].wallet_balance, 999);
    assert_eq!(EscrowService::create_escrow(&mut m, 0, 1, 0, 10, 5), Err(AppError::InvalidAmount));
    assert_eq!(EscrowService::create_escrow(&mut m, 0, 9, 10, 10, 5), Err(AppError::UserNotFound));
    assert!(m.escrows.is_empty());
}

#[test]
fn purchase_then_release() {
    let mut m = market_with(1000);
    let (e, o) = bought(&mut m, 1000, 0);
    assert_eq!(m.users[0].wallet_balance, 0);
    assert_eq!(m.escrows[e].status, EscrowStatus::Held);
    assert_eq!(m.orders[o].status, OrderStatus::Pending);
    EscrowService::release_escrow(&mut m, e, 10).unwrap();
    assert_eq!(m.users[1].wallet_balance, 1000);
    assert_eq!(m.escrows[e].status, EscrowStatus::Released);
    assert_eq!(m.escrows[e].resolved_at, Some(10));
    assert_eq!(m.orders[o].status, OrderStatus::Completed);
    assert_eq!(m.orders[o].completed_at, Some(10));
    assert_eq!(log_sum(&m, 1), 1000);
}

#[test]
fn release_twice_is_refused_without_ledger_change() {
    let mut m = market_with(1000);
    let (e, _) = bought(&mut m, 400, 0);
    EscrowService::release_escrow(&mut m, e, 1).unwrap();
    let seller_log = m.users[1].transactions.len();
    assert_eq!(EscrowService::release_escrow(&mut m, e, 2), Err(AppError::EscrowAlreadyReleased));
    assert_eq!(m.users[1].wallet_balance, 400);
    assert_eq!(m.users[1].transactions.len(), seller_log);
    assert_eq!(m.escrows[e].resolved_at, Some(1));
    assert_eq!(EscrowService::release_escrow(&mut m, 42, 2), Err(AppError::EscrowNotFound));
}

#[test]
fn refund_returns_funds_from_held_or_disputed() {
    let mut m = market_with(1000);
    let (e, o) = bought(&mut m, 300, 0);
    EscrowService::refund_escrow(&mut m, e, 1).unwrap();
    assert_eq!(m.users[0].wallet_balance, 1000);
    assert_eq!(m.escrows[e].status, EscrowStatus::Refunded);
    assert_eq!(m.orders[o].status, OrderStatus::Refunded);
    assert_eq!(EscrowService::refund_escrow(&mut m, e, 2), Err(AppError::EscrowAlreadyRefunded));
    assert_eq!(EscrowService::release_escrow(&mut m, e, 2), Err(AppError::EscrowAlreadyReleased));

    let (e2, o2) = bought(&mut m, 200, 3);
    m.open_dispute(o2, "buyer".to_string(), "broken".to_string(), 4).unwrap();
    assert_eq!(m.escrows[e2].status, EscrowStatus::Disputed);
    EscrowService::refund_escrow(&mut m, e2, 5).unwrap();
    assert_eq!(m.users[0].wallet_balance, 1000);
}

#[test]
fn mark_disputed_only_moves_held() {
    let mut m = market_with(1000);
    let (e, _) = bought(&mut m, 100, 0);
    EscrowService::mark_disputed(&mut m, e);
    assert_eq!(m.escrows[e].status, EscrowStatus::Disputed);
    EscrowService::mark_disputed(&mut m, e);
    assert_eq!(m.escrows[e].status, EscrowStatus::Disputed);
    let (e2, _) = bought(&mut m, 100, 0);
    EscrowService::release_escrow(&mut m, e2, 1).unwrap();
    EscrowService::mark_disputed(&mut m, e2);
    assert_eq!(m.escrows[e2].status, EscrowStatus::Released);
    EscrowService::mark_disputed(&mut m, 99);
}

#[test]
fn get_escrow_and_pending_releases() {
    let mut m = market_with(1000);
    let (e1, _) = bought(&mut m, 100, 0);
    let (e2, _) = bought(&mut m, 100, DAY);
    assert_eq!(EscrowService::get_escrow(&m, e1).unwrap().amount, 100);
    assert!(matches!(EscrowService::get_escrow(&m, 5), Err(AppError::EscrowNotFound)));
    assert_eq!(EscrowService::get_pending_auto_releases(&m, 10 * DAY - 1), Vec::<usize>::new());
    assert_eq!(EscrowService::get_pending_auto_releases(&m, 10 * DAY), vec![e1]);
    assert_eq!(EscrowService::get_pending_auto_releases(&m, 11 * DAY), vec![e1, e2]);
    assert!(m.escrows[e1].should_auto_release(10 * DAY));
    assert!(!m.escrows[e1].should_auto_release(10 * DAY - 1));
    assert_eq!(m.escrows[e1].time_until_release(10 * DAY - 5), 5);
    assert_eq!(m.escrows[e1].time_until_release(11 * DAY), 0);
    assert!(m.escrows[e1].can_release() && m.escrows[e1].can_refund());
}

#[test]
fn sweep_releases_only_held() {
    let mut m = market_with(1000);
    let (held, held_order) = bought(&mut m, 100, 0);
    let (disputed, disputed_order) = bought(&mut m, 200, 0);
    m.open_dispute(disputed_order, "buyer".to_string(), "late".to_string(), 1).unwrap();
    let now = 10 * DAY + 1;
    assert_eq!(EscrowService::process_auto_releases_at(&mut m, now), 1);
    assert_eq!(m.escrows[held].status, EscrowStatus::Released);
    assert_eq!(m.orders[held_order].status, OrderStatus::Completed);
    assert_eq!(m.escrows[disputed].status, EscrowStatus::Disputed);
    assert_eq!(m.orders[disputed_order].status, OrderStatus::Disputed);
    assert_eq!(m.users[1].wallet_balance, 100);
    let seller_rows: Vec<(TransactionType, i64, Option<usize>)> = m.users[1]
        .transactions
        .iter()
        .map(|t| (t.transaction_type, t.amount, t.reference_id))
        .collect();
    assert_eq!(seller_rows, vec![(TransactionType::EscrowRelease, 100, Some(held))]);
    assert!(m.users.iter().flat_map(|u| u.transactions.iter()).all(|t| t.reference_id != Some(disputed) || t.amount < 0));
    // A second sweep finds nothing more to do.
    assert_eq!(EscrowService::process_auto_releases_at(&mut m, now + DAY), 0);
    assert_eq!(m.users[1].wallet_balance, 100);
}

#[test]
fn sweep_leaves_escrows_not_yet_due() {
    let mut m = market_with(1000);
    let (e, _) = bought(&mut m, 100, 0);
    assert_eq!(EscrowService::process_auto_releases_at(&mut m, 10 * DAY - 1), 0);
    assert_eq!(m.escrows[e].status, EscrowStatus::Held);
}

#[test]
fn sweep_with_the_clock_releases_past_deadlines() {
    let mut m = market_with(1000);
    // Created at the epoch with a one-day hold: long overdue by the wall clock.
    let e = EscrowService::create_escrow(&mut m, 0, 1, 250, 1, 0).unwrap();
    assert_eq!(EscrowService::process_auto_releases(&mut m), 1);
    assert_eq!(m.escrows[e].status, EscrowStatus::Released);
    assert!(m.escrows[e].resolved_at.unwrap() > 1_600_000_000);
}

#[test]
fn split_resolution_pays_both_sides() {
    let mut m = market_with(1000);
    let (e, o) = bought(&mut m, 100, 0);
    let d = m.open_dispute(o, "buyer".to_string(), "not as described".to_string(), 1).unwrap();
    let buyer_before = m.users[0].wallet_balance;
    m.resolve_dispute(d, "split_70_30", 0, Some("shared fault".to_string()), 2).unwrap();
    assert_eq!(m.users[0].wallet_balance, buyer_before + 70);
    assert_eq!(m.users[1].wallet_balance, 30);
    assert_eq!(m.escrows[e].status, EscrowStatus::Released);
    assert_eq!(m.orders[o].status, OrderStatus::Completed);
    let dispute = &m.disputes[d];
    assert_eq!(dispute.status, DisputeStatus::Resolved);
    assert_eq!(dispute.resolved_by, Some(0));
    assert_eq!(dispute.resolved_at, Some(2));
    assert_eq!(
        dispute.resolution,
        Some(marketplace::DisputeResolution::Split { buyer_percent: 70, seller_percent: 30 })
    );
    let credited: i64 = m
        .users
        .iter()
        .flat_map(|u| u.transactions.iter())
        .filter(|t| t.reference_id == Some(e) && t.amount > 0)
        .map(|t| t.amount)
        .sum();
    assert_eq!(credited, 100);
}

#[test]
fn invalid_resolution_changes_nothing() {
    let mut m = market_with(1000);
    let (e, o) = bought(&mut m, 100, 0);
    let d = m.open_dispute(o, "buyer".to_string(), "missing".to_string(), 1).unwrap();
    let balances: Vec<i64> = m.users.iter().map(|u| u.wallet_balance).collect();
    let r = m.resolve_dispute(d, "split_50_40", 0, None, 2);
    assert_eq!(r, Err(AppError::InvalidResolution("split_50_40".to_string())));
    assert_eq!(m.users.iter().map(|u| u.wallet_balance).collect::<Vec<_>>(), balances);
    assert_eq!(m.escrows[e].status, EscrowStatus::Disputed);
    assert_eq!(m.orders[o].status, OrderStatus::Disputed);
    assert_eq!(m.disputes[d].status, DisputeStatus::Open);
    assert_eq!(m.disputes[d].resolution, None);
}

#[test]
fn resolving_twice_is_refused() {
    let mut m = market_with(1000);
    let (_, o) = bought(&mut m, 100, 0);
    let d = m.open_dispute(o, "buyer".to_string(), "missing".to_string(), 1).unwrap();
    m.resolve_dispute(d, "buyer_full", 0, None, 2).unwrap();
    assert_eq!(m.users[0].wallet_balance, 1000);
    assert_eq!(m.resolve_dispute(d, "seller_full", 0, None, 3), Err(AppError::DisputeAlreadyResolved));
    assert_eq!(m.users[1].wallet_balance, 0);
    assert_eq!(m.resolve_dispute(9, "burn", 0, None, 3), Err(AppError::DisputeNotFound));
}

#[test]
fn buyer_full_refunds_and_burn_destroys() {
    let mut m = market_with(1000);
    let (e1, o1) = bought(&mut m, 100, 0);
    let (e2, o2) = bought(&mut m, 200, 0);
    let d1 = m.open_dispute(o1, "buyer".to_string(), "a".to_string(), 1).unwrap();
    let d2 = m.open_dispute(o2, "buyer".to_string(), "b".to_string(), 1).unwrap();
    m.resolve_dispute(d1, "buyer_full", 0, None, 2).unwrap();
    assert_eq!(m.escrows[e1].status, EscrowStatus::Refunded);
    assert_eq!(m.orders[o1].status, OrderStatus::Refunded);
    assert_eq!(m.users[0].wallet_balance, 800);
    m.resolve_dispute(d2, "burn", 0, None, 2).unwrap();
    assert_eq!(m.escrows[e2].status, EscrowStatus::Released);
    assert_eq!(m.orders[o2].status, OrderStatus::Completed);
    assert_eq!((m.users[0].wallet_balance, m.users[1].wallet_balance), (800, 0));
}

#[test]
fn engine_resolution_requires_disputed_escrow() {
    let mut m = market_with(1000);
    let (e, _) = bought(&mut m, 100, 0);
    assert_eq!(
        EscrowService::resolve_dispute(&mut m, e, marketplace::DisputeResolution::BuyerFull, 1),
        Err(AppError::EscrowNotFound)
    );
    EscrowService::mark_disputed(&mut m, e);
    let bad = marketplace::DisputeResolution::Split { buyer_percent: 60, seller_percent: 60 };
    assert_eq!(
        EscrowService::resolve_dispute(&mut m, e, bad, 1),
        Err(AppError::InvalidResolution("split_60_60".to_string()))
    );
    assert_eq!(m.escrows[e].status, EscrowStatus::Disputed);
}

#[test]
fn disputes_open_only_on_pending_or_shipped_orders() {
    let mut m = market_with(1000);
    let (e, o) = bought(&mut m, 100, 0);
    m.mark_shipped(o, 1, Some("TRACK1".to_string()), 1).unwrap();
    assert_eq!(m.orders[o].status, OrderStatus::Shipped);
    let d = m.open_dispute(o, "buyer".to_string(), "never arrived".to_string(), 2).unwrap();
    assert_eq!(m.disputes[d].auto_resolve_at, 2 + 10 * DAY);
    assert_eq!(m.orders[o].status, OrderStatus::Disputed);
    assert_eq!(m.escrows[e].status, EscrowStatus::Disputed);
    assert_eq!(
        m.open_dispute(o, "buyer".to_string(), "again".to_string(), 3),
        Err(AppError::OrderCannotBeDisputed)
    );
    assert_eq!(m.open_dispute(77, "buyer".to_string(), "x".to_string(), 3), Err(AppError::OrderNotFound));
}

#[test]
fn evidence_only_while_open() {
    let mut m = market_with(1000);
    let (_, o) = bought(&mut m, 100, 0);
    let d = m.open_dispute(o, "buyer".to_string(), "x".to_string(), 1).unwrap();
    let k = m.submit_evidence(d, 0, marketplace::EvidenceType::Text, "photo to follow".to_string(), 2).unwrap();
    assert_eq!(m.evidence[k].content, "photo to follow");
    assert_eq!(m.submit_evidence(d, 5, marketplace::EvidenceType::Image, "x".to_string(), 2), Err(AppError::UserNotFound));
    m.resolve_dispute(d, "seller_full", 0, None, 3).unwrap();
    assert_eq!(m.users[1].wallet_balance, 100);
    assert_eq!(
        m.submit_evidence(d, 0, marketplace::EvidenceType::Text, "late".to_string(), 4),
        Err(AppError::DisputeAlreadyResolved)
    );
}

#[test]
fn dispute_deadline_predicates() {
    let mut m = market_with(1000);
    let (_, o) = bought(&mut m, 100, 0);
    let d = m.open_dispute(o, "buyer".to_string(), "x".to_string(), 0).unwrap();
    let dispute = &m.disputes[d];
    assert!(dispute.is_open());
    assert!(!dispute.should_send_warning(3 * DAY - 1));
    assert!(dispute.should_send_warning(3 * DAY));
    assert!(!dispute.should_auto_resolve(10 * DAY - 1));
    assert!(dispute.should_auto_resolve(10 * DAY));
}

#[test]
fn buyer_confirms_delivery() {
    let mut m = market_with(1000);
    let (e, o) = bought(&mut m, 100, 0);
    assert_eq!(m.confirm_order(o, 1, 1), Err(AppError::NotAuthorized));
    m.confirm_order(o, 0, 1).unwrap();
    assert_eq!(m.escrows[e].status, EscrowStatus::Released);
    assert_eq!(m.orders[o].status, OrderStatus::Completed);
    assert_eq!(m.confirm_order(o, 0, 2), Err(AppError::OrderAlreadyCompleted));
    assert_eq!(m.mark_shipped(o, 1, None, 2), Err(AppError::OrderAlreadyCompleted));
    assert_eq!(m.mark_shipped(o, 0, None, 2), Err(AppError::NotAuthorized));
}
