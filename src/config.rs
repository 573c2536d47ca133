//! Marketplace settings and their defaults.

use vstd::prelude::*;

verus! {

/// Settings of the whole marketplace.
#[derive(Debug, Clone)]
pub struct Config {
    pub host: String,
    pub port: u16,
    pub database_url: String,
    pub database_key: Option<String>,
    pub session_secret: String,
    pub session_hours: u64,
    pub admin_npub: String,
    pub mint: MintConfig,
    pub lightning: LightningConfig,
    /// Marketplace fee in percent of a checkout's total.
    pub fee_percent: u8,
    /// Days an escrow is held before it is released automatically.
    pub escrow_days: u32,
    pub browsing_fee_sats: u64,
    pub seller_bonds: SellerBondConfig,
    /// Hours a checkout keeps its prices locked.
    pub price_lock_hours: u32,
}

/// Where ecash is minted.
#[derive(Debug, Clone)]
pub struct MintConfig {
    pub url: String,
    pub data_dir: String,
    pub unit: String,
}

/// Which Lightning backend pays out.
#[derive(Debug, Clone)]
pub struct LightningConfig {
    pub backend: String,
    pub url: Option<String>,
    pub api_key: Option<String>,
}

/// Bond a seller locks per category, in sats.
#[derive(Debug, Clone, Copy, PartialEq, Eq, Structural)]
pub struct SellerBondConfig {
    pub digital: u64,
    pub physical: u64,
    pub services: u64,
    pub all: u64,
}

pub fn default_host() -> (r: String)
    ensures
        r@ == "127.0.0.1"@,
{
    String::from_str("127.0.0.1")
}

pub fn default_port() -> (r: u16)
    ensures
        r == 3000,
{
    3000
}

pub fn default_database_url() -> (r: String)
    ensures
        r@ == "sqlite:data/marketplace.db"@,
{
    String::from_str("sqlite:data/marketplace.db")
}

/// One week.
pub fn default_session_hours() -> (r: u64)
    ensures
        r == 168,
{
    24 * 7
}

pub fn default_fee_percent() -> (r: u8)
    ensures
        r == 1,
{
    1
}

pub fn default_escrow_days() -> (r: u32)
    ensures
        r == 10,
{
    10
}

pub fn default_browsing_fee() -> (r: u64)
    ensures
        r == 100,
{
    100
}

pub fn default_price_lock_hours() -> (r: u32)
    ensures
        r == 3,
{
    3
}

pub fn default_mint_url() -> (r: String)
    ensures
        r@ == "https://mint.minibits.cash/Bitcoin"@,
{
    String::from_str("https://mint.minibits.cash/Bitcoin")
}

pub fn default_mint_data_dir() -> (r: String)
    ensures
        r@ == "data/wallet"@,
{
    String::from_str("data/wallet")
}

pub fn default_mint_unit() -> (r: String)
    ensures
        r@ == "sat"@,
{
    String::from_str("sat")
}

pub fn default_lightning_backend() -> (r: String)
    ensures
        r@ == "lnbits"@,
{
    String::from_str("lnbits")
}

pub fn default_digital_bond() -> (r: u64)
    ensures
        r == 250_000,
{
    250_000
}

pub fn default_physical_bond() -> (r: u64)
    ensures
        r == 250_000,
{
    250_000
}

pub fn default_services_bond() -> (r: u64)
    ensures
        r == 250_000,
{
    250_000
}

pub fn default_all_bond() -> (r: u64)
    ensures
        r == 600_000,
{
    600_000
}

impl Default for MintConfig {
    fn default() -> (r: Self)
        ensures
            r.url@ == "https://mint.minibits.cash/Bitcoin"@,
            r.data_dir@ == "data/wallet"@,
            r.unit@ == "sat"@,
    {
        MintConfig { url: default_mint_url(), data_dir: default_mint_data_dir(), unit: default_mint_unit() }
    }
}

impl Default for LightningConfig {
    fn default() -> (r: Self)
        ensures
            r.backend@ == "lnbits"@,
            r.url is None,
            r.api_key is None,
    {
        LightningConfig { backend: default_lightning_backend(), url: None, api_key: None }
    }
}

impl Default for SellerBondConfig {
    fn default() -> (r: Self)
        ensures
            r == (SellerBondConfig { digital: 250_000, physical: 250_000, services: 250_000, all: 600_000 }),
    {
        SellerBondConfig {
            digital: default_digital_bond(),
            physical: default_physical_bond(),
            services: default_services_bond(),
            all: default_all_bond(),
        }
    }
}

} // verus!
