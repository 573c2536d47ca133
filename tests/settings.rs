use marketplace::config::{
    default_all_bond, default_browsing_fee, default_database_url, default_digital_bond,
    default_escrow_days, default_fee_percent, default_host, default_lightning_backend,
    default_mint_data_dir, default_mint_unit, default_mint_url, default_physical_bond,
    default_port, default_price_lock_hours, default_services_bond, default_session_hours,
};
use marketplace::{
    browsing_fee_layer, BrowsingFeeConfig, BrowsingFeeLayer, FeeDecision, LightningConfig,
    MintConfig, SellerBondConfig,
};

#[test]
fn default_settings() {
    assert_eq!(default_host(), "127.0.0.1");
    assert_eq!(default_port(), 3000);
    assert_eq!(default_database_url(), "sqlite:data/marketplace.db");
    assert_eq!(default_session_hours(), 168);
    assert_eq!(default_fee_percent(), 1);
    assert_eq!(default_escrow_days(), 10);
    assert_eq!(default_browsing_fee(), 100);
    assert_eq!(default_price_lock_hours(), 3);
    assert_eq!(default_mint_url(), "https://mint.minibits.cash/Bitcoin");
    assert_eq!(default_mint_data_dir(), "data/wallet");
    assert_eq!(default_mint_unit(), "sat");
    assert_eq!(default_lightning_backend(), "lnbits");
    assert_eq!(
        (default_digital_bond(), default_physical_bond(), default_services_bond(), default_all_bond()),
        (250_000, 250_000, 250_000, 600_000)
    );
    let mint = MintConfig::default();
    assert_eq!(mint.unit, "sat");
    assert_eq!(LightningConfig::default().url, None);
    assert_eq!(
        SellerBondConfig::default(),
        SellerBondConfig { digital: 250_000, physical: 250_000, services: 250_000, all: 600_000 }
    );
}

#[test]
fn default_browsing_fee_lets_everything_through() {
    // "/" is a free prefix of every path.
    let config = BrowsingFeeConfig::default();
    assert_eq!(config.min_fee_sats, 100);
    assert_eq!(config.decide("/listings/42", false, None), FeeDecision::Pass);
    let layer = browsing_fee_layer(config.clone());
    assert_eq!(layer.config.free_paths.len(), 8);
    assert_eq!(BrowsingFeeLayer::new(config).config.protected_paths, vec!["/listings".to_string()]);
}

#[test]
fn browsing_fee_on_protected_paths() {
    let config = BrowsingFeeConfig {
        min_fee_sats: 10,
        protected_paths: vec!["/listings".to_string()],
        free_paths: vec!["/login".to_string()],
    };
    assert_eq!(config.decide("/login", false, None), FeeDecision::Pass);
    assert_eq!(config.decide("/cart", false, None), FeeDecision::Pass);
    assert_eq!(config.decide("/listings", true, None), FeeDecision::Pass);
    assert_eq!(config.decide("/listings/7", false, None), FeeDecision::MissingToken);
    assert_eq!(config.decide("/listings/7", false, Some("cashuB123")), FeeDecision::MalformedToken);
    assert_eq!(config.decide("/listings/7", false, Some("cashuAeyJ0")), FeeDecision::Pass);
    assert_eq!(config.decide("/list", false, None), FeeDecision::Pass);
}
