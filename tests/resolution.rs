use marketplace::status::{
    CheckoutStatus, DisputeStatus, EscrowStatus, EvidenceType, OrderStatus, SellerCategory,
    TransactionType, UserRole,
};
use marketplace::DisputeResolution;

#[test]
fn parses_fixed_resolutions() {
    assert_eq!(DisputeResolution::from_str("buyer_full"), Some(DisputeResolution::BuyerFull));
    assert_eq!(DisputeResolution::from_str("seller_full"), Some(DisputeResolution::SellerFull));
    assert_eq!(DisputeResolution::from_str("burn"), Some(DisputeResolution::Burn));
}

#[test]
fn parses_split_resolutions() {
    assert_eq!(
        DisputeResolution::from_str("split_70_30"),
        Some(DisputeResolution::Split { buyer_percent: 70, seller_percent: 30 })
    );
    assert_eq!(
        DisputeResolution::from_str("split_100_0"),
        Some(DisputeResolution::Split { buyer_percent: 100, seller_percent: 0 })
    );
    assert_eq!(
        DisputeResolution::from_str("split_+50_050"),
        Some(DisputeResolution::Split { buyer_percent: 50, seller_percent: 50 })
    );
}

#[test]
fn rejects_malformed_resolutions() {
    for bad in [
        "split_50_40",
        "split_50_50_0",
        "split_50",
        "split_",
        "split__100",
        "split_256_0",
        "split_-10_110",
        "split_a_b",
        "split_+_100",
        "Burn",
        "",
        "buyer_full ",
    ] {
        assert_eq!(DisputeResolution::from_str(bad), None, "{}", bad);
    }
}

#[test]
fn prints_resolutions() {
    assert_eq!(DisputeResolution::BuyerFull.to_str(), "buyer_full");
    assert_eq!(DisputeResolution::SellerFull.to_str(), "seller_full");
    assert_eq!(DisputeResolution::Burn.to_str(), "burn");
    assert_eq!(
        DisputeResolution::Split { buyer_percent: 70, seller_percent: 30 }.to_str(),
        "split_70_30"
    );
    assert_eq!(
        DisputeResolution::Split { buyer_percent: 100, seller_percent: 0 }.to_str(),
        "split_100_0"
    );
    assert_eq!(
        DisputeResolution::Split { buyer_percent: 5, seller_percent: 95 }.to_str(),
        "split_5_95"
    );
}

#[test]
fn printed_resolutions_parse_back() {
    for r in [
        DisputeResolution::BuyerFull,
        DisputeResolution::SellerFull,
        DisputeResolution::Burn,
        DisputeResolution::Split { buyer_percent: 33, seller_percent: 67 },
        DisputeResolution::Split { buyer_percent: 0, seller_percent: 100 },
    ] {
        assert_eq!(DisputeResolution::from_str(&r.to_str()), Some(r));
    }
}

#[test]
fn calculates_amounts() {
    assert_eq!(DisputeResolution::BuyerFull.calculate_amounts(1000), (1000, 0));
    assert_eq!(DisputeResolution::SellerFull.calculate_amounts(1000), (0, 1000));
    assert_eq!(DisputeResolution::Burn.calculate_amounts(1000), (0, 0));
    let split = DisputeResolution::Split { buyer_percent: 70, seller_percent: 30 };
    assert_eq!(split.calculate_amounts(100), (70, 30));
    let half = DisputeResolution::Split { buyer_percent: 50, seller_percent: 50 };
    // The rounding remainder (1) goes to nobody.
    assert_eq!(half.calculate_amounts(99), (49, 49));
    let third = DisputeResolution::Split { buyer_percent: 33, seller_percent: 67 };
    assert_eq!(third.calculate_amounts(1000), (330, 670));
    // No overflow on the largest amount.
    assert_eq!(
        DisputeResolution::Split { buyer_percent: 100, seller_percent: 0 }.calculate_amounts(i64::MAX),
        (i64::MAX, 0)
    );
}

#[test]
fn resolution_amounts_conserve_escrow() {
    for total in [0i64, 1, 7, 99, 100, 101, 12345] {
        for b in 0u8..=100 {
            let r = DisputeResolution::Split { buyer_percent: b, seller_percent: 100 - b };
            let (x, y) = r.calculate_amounts(total);
            assert!(x >= 0 && y >= 0 && x + y <= total);
            assert!(total - x - y < 2);
        }
    }
}

#[test]
fn validates_split_percentages() {
    assert!(DisputeResolution::Split { buyer_percent: 60, seller_percent: 40 }.validate());
    assert!(!DisputeResolution::Split { buyer_percent: 60, seller_percent: 41 }.validate());
    assert!(DisputeResolution::Burn.validate());
}

#[test]
fn converts_stored_status_names() {
    assert_eq!(EscrowStatus::from("released".to_string()), EscrowStatus::Released);
    assert_eq!(EscrowStatus::from("refunded".to_string()), EscrowStatus::Refunded);
    assert_eq!(EscrowStatus::from("disputed".to_string()), EscrowStatus::Disputed);
    assert_eq!(EscrowStatus::from("anything".to_string()), EscrowStatus::Held);
    assert_eq!(String::from(EscrowStatus::Disputed), "disputed");
    assert_eq!(OrderStatus::from("shipped".to_string()), OrderStatus::Shipped);
    assert_eq!(OrderStatus::from("".to_string()), OrderStatus::Pending);
    assert_eq!(String::from(OrderStatus::Completed), "completed");
    assert_eq!(DisputeStatus::from("resolved".to_string()), DisputeStatus::Resolved);
    assert_eq!(DisputeStatus::from("open".to_string()), DisputeStatus::Open);
    assert_eq!(CheckoutStatus::from("paid".to_string()), CheckoutStatus::Paid);
    assert_eq!(CheckoutStatus::from("expired".to_string()), CheckoutStatus::Expired);
    assert_eq!(EvidenceType::from("image".to_string()), EvidenceType::Image);
    assert_eq!(EvidenceType::from("text".to_string()), EvidenceType::Text);
    assert_eq!(UserRole::from("admin".to_string()), UserRole::Admin);
    assert_eq!(String::from(UserRole::Seller), "seller");
    assert_eq!(SellerCategory::from("services".to_string()), SellerCategory::Services);
    assert_eq!(String::from(SellerCategory::Physical), "physical");
    assert_eq!(String::from(TransactionType::EscrowHold), "escrow_hold");
    assert_eq!(String::from(TransactionType::EscrowRefund), "escrow_refund");
}
