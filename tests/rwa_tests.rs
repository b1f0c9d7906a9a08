use steller_contracts::{AssetType, RWAContract, RwaError, RwaEvent, TokenTransfer};

const LEDGER: u64 = 100;
const ADMIN: u64 = 1;
const CUSTODIAN: u64 = 2;
const INVESTOR: u64 = 3;
const INVESTOR2: u64 = 4;
const PAYMENT_TOKEN: u64 = 10;
const ASSET_TOKEN: u64 = 11;
const DIST_TOKEN: u64 = 12;
const NOW: u64 = 0;
const KYC_EXPIRY: u64 = NOW + 365 * 86400;

fn s(text: &str) -> String {
    text.to_string()
}

/// The net amount of `token` that the committed transfers moved to `who`.
fn balance_change(c: &RWAContract, token: u64, who: u64) -> i128 {
    let mut total: i128 = 0;
    for t in c.transfers() {
        if t.token == token && t.to == who {
            total += t.amount;
        }
        if t.token == token && t.from == who {
            total -= t.amount;
        }
    }
    total
}

fn setup_test_env() -> RWAContract {
    let mut c = RWAContract::new(LEDGER);
    c.initialize(ADMIN, ADMIN).unwrap();
    c
}

fn setup_with_asset() -> (RWAContract, u64) {
    let mut c = setup_test_env();
    let asset_id = c
        .create_asset(
            ADMIN,
            NOW,
            s("Test Property"),
            s("TPROP"),
            AssetType::RealEstate,
            1000000,
            100000000,
            CUSTODIAN,
            ASSET_TOKEN,
            100,
            false,
        )
        .unwrap();
    (c, asset_id)
}

/// An initialized ledger with "US" whitelisted and `investor` registered.
fn setup_with_investor(investor: u64, accredited: bool) -> RWAContract {
    let mut c = setup_test_env();
    c.whitelist_country(ADMIN, s("US"), true).unwrap();
    c.register_investor(ADMIN, NOW, investor, accredited, s("US"), KYC_EXPIRY).unwrap();
    c
}

fn create(c: &mut RWAContract, name: &str, symbol: &str, kind: AssetType, supply: i128, value: i128, min: i128, accredited_only: bool) -> u64 {
    c.create_asset(ADMIN, NOW, s(name), s(symbol), kind, supply, value, CUSTODIAN, ASSET_TOKEN, min, accredited_only)
        .unwrap()
}

#[test]
fn rwa_test_initialize() {
    let mut c = RWAContract::new(LEDGER);
    c.initialize(ADMIN, ADMIN).unwrap();
    assert_eq!(c.get_asset_count(), 0);
    assert_eq!(c.get_tvl(), 0);
}

#[test]
fn rwa_tests_test_initialize_success() {
    let mut c = RWAContract::new(LEDGER);
    c.initialize(ADMIN, ADMIN).unwrap();
    assert_eq!(c.get_asset_count(), 0);
    assert_eq!(c.get_tvl(), 0);
}

#[test]
fn rwa_tests_test_initialize_twice_fails() {
    let mut c = RWAContract::new(LEDGER);
    c.initialize(ADMIN, ADMIN).unwrap();
    assert_eq!(c.initialize(ADMIN, ADMIN), Err(RwaError::AlreadyInitialized));
}

#[test]
fn test_set_admin() {
    let mut c = setup_test_env();
    let new_admin: u64 = 50;
    c.set_admin(ADMIN, new_admin).unwrap();
    // The old admin has lost its rights; the new one has them.
    assert_eq!(c.whitelist_country(ADMIN, s("US"), true), Err(RwaError::Unauthorized));
    assert_eq!(c.whitelist_country(new_admin, s("US"), true), Ok(()));
}

#[test]
fn test_whitelist_country() {
    let mut c = setup_test_env();
    c.whitelist_country(ADMIN, s("US"), true).unwrap();
    let kyc_expiry = NOW + 365 * 86400;
    let result = c.register_investor(ADMIN, NOW, INVESTOR, true, s("US"), kyc_expiry);
    assert_eq!(result, Ok(true));
}

#[test]
fn test_register_investor_non_whitelisted_country() {
    let mut c = setup_test_env();
    let kyc_expiry = NOW + 365 * 86400;
    let result = c.register_investor(ADMIN, NOW, INVESTOR, true, s("XX"), kyc_expiry);
    assert_eq!(result, Err(RwaError::ComplianceViolation));
    assert!(c.get_investor(INVESTOR).is_none());
}

#[test]
fn test_blacklist_address() {
    let mut c = setup_with_investor(INVESTOR, false);
    let asset_id = create(&mut c, "Test", "TST", AssetType::RealEstate, 1000000, 100000000, 100, false);
    assert!(c.check_eligibility(NOW, asset_id, INVESTOR));
    c.blacklist_address(ADMIN, INVESTOR, true).unwrap();
    assert!(!c.check_eligibility(NOW, asset_id, INVESTOR));
}

#[test]
fn test_create_asset_success() {
    let mut c = setup_test_env();
    let asset_id = c
        .create_asset(
            ADMIN,
            NOW,
            s("Manhattan Tower"),
            s("MTWR"),
            AssetType::RealEstate,
            1000000,
            50000000000,
            CUSTODIAN,
            ASSET_TOKEN,
            1000,
            true,
        )
        .unwrap();
    assert_eq!(asset_id, 1);
    assert_eq!(c.get_asset_count(), 1);
    let asset = c.get_asset(asset_id).unwrap();
    assert_eq!(asset.total_supply, 1000000);
    assert_eq!(asset.circulating_supply, 0);
    assert!(asset.is_active);
    assert!(asset.accredited_only);
}

#[test]
fn test_create_multiple_assets() {
    let mut c = setup_test_env();
    let id1 = create(&mut c, "Asset 1", "AST1", AssetType::RealEstate, 1000000, 100000000, 100, false);
    let id2 = create(&mut c, "Asset 2", "AST2", AssetType::Commodity, 500000, 50000000, 50, false);
    let id3 = create(&mut c, "Asset 3", "AST3", AssetType::Bond, 2000000, 200000000, 1000, true);
    assert_eq!(id1, 1);
    assert_eq!(id2, 2);
    assert_eq!(id3, 3);
    assert_eq!(c.get_asset_count(), 3);
}

#[test]
fn test_create_asset_invalid_supply() {
    let mut c = setup_test_env();
    let result = c.create_asset(
        ADMIN,
        NOW,
        s("Bad Asset"),
        s("BAD"),
        AssetType::Other,
        0,
        100000000,
        CUSTODIAN,
        ASSET_TOKEN,
        100,
        false,
    );
    assert_eq!(result, Err(RwaError::InvalidArgument));
    assert_eq!(c.get_asset_count(), 0);
}

#[test]
fn test_update_valuation() {
    let (mut c, asset_id) = setup_with_asset();
    assert_eq!(c.get_asset(asset_id).unwrap().asset_value_usd, 100000000);
    let result = c.update_valuation(ADMIN, NOW, asset_id, 150000000);
    assert_eq!(result, Ok(true));
    assert_eq!(c.get_asset(asset_id).unwrap().asset_value_usd, 150000000);
}

#[test]
fn test_update_valuation_nonexistent() {
    let mut c = setup_test_env();
    let result = c.update_valuation(ADMIN, NOW, 999, 100000000);
    assert_eq!(result, Ok(false));
}

#[test]
fn test_set_asset_transferable() {
    let (mut c, asset_id) = setup_with_asset();
    assert!(c.get_asset(asset_id).unwrap().is_transferable);
    c.set_asset_transferable(ADMIN, asset_id, false).unwrap();
    assert!(!c.get_asset(asset_id).unwrap().is_transferable);
    c.set_asset_transferable(ADMIN, asset_id, true).unwrap();
    assert!(c.get_asset(asset_id).unwrap().is_transferable);
}

#[test]
fn test_register_investor_success() {
    let mut c = setup_test_env();
    c.whitelist_country(ADMIN, s("US"), true).unwrap();
    let kyc_expiry = NOW + 365 * 86400;
    let result = c.register_investor(ADMIN, NOW, INVESTOR, true, s("US"), kyc_expiry);
    assert_eq!(result, Ok(true));
    let investor_data = c.get_investor(INVESTOR).unwrap();
    assert!(investor_data.is_accredited);
    assert!(investor_data.is_kyc_verified);
}

#[test]
fn test_update_accreditation() {
    let mut c = setup_with_investor(INVESTOR, false);
    assert!(!c.get_investor(INVESTOR).unwrap().is_accredited);
    c.update_accreditation(ADMIN, INVESTOR, true).unwrap();
    assert!(c.get_investor(INVESTOR).unwrap().is_accredited);
}

#[test]
fn test_invest_success() {
    let mut c = setup_with_investor(INVESTOR, false);
    let asset_id = create(&mut c, "Test Asset", "TEST", AssetType::RealEstate, 1000000, 100000000, 100, false);
    let invest_amount: i128 = 1000;
    let payment_amount: i128 = 100000;
    let result = c.invest(INVESTOR, NOW, asset_id, INVESTOR, invest_amount, PAYMENT_TOKEN, payment_amount);
    assert_eq!(result, Ok(true));
    let holding = c.get_holding(asset_id, INVESTOR).unwrap();
    assert_eq!(holding.amount, invest_amount);
    let asset = c.get_asset(asset_id).unwrap();
    assert_eq!(asset.circulating_supply, invest_amount);
}

#[test]
fn test_invest_unregistered_investor() {
    let (mut c, asset_id) = setup_with_asset();
    let unregistered_investor: u64 = 77;
    let result = c.invest(unregistered_investor, NOW, asset_id, unregistered_investor, 1000, PAYMENT_TOKEN, 100000);
    assert_eq!(result, Err(RwaError::NotRegistered));
}

#[test]
fn test_invest_below_minimum() {
    let mut c = setup_with_investor(INVESTOR, false);
    let asset_id = create(&mut c, "Test", "TST", AssetType::RealEstate, 1000000, 100000000, 1000, false);
    let result = c.invest(INVESTOR, NOW, asset_id, INVESTOR, 500, PAYMENT_TOKEN, 50000);
    assert_eq!(result, Err(RwaError::InvalidArgument));
}

#[test]
fn test_invest_non_accredited_in_accredited_only() {
    let mut c = setup_with_investor(INVESTOR, false);
    let asset_id = create(&mut c, "Accredited Only Asset", "ACC", AssetType::Security, 1000000, 100000000, 100, true);
    let result = c.invest(INVESTOR, NOW, asset_id, INVESTOR, 1000, PAYMENT_TOKEN, 100000);
    assert_eq!(result, Err(RwaError::ComplianceViolation));
}

#[test]
fn test_transfer_success() {
    let mut c = setup_with_investor(INVESTOR, false);
    let kyc_expiry = NOW + 365 * 86400;
    c.register_investor(ADMIN, NOW, INVESTOR2, false, s("US"), kyc_expiry).unwrap();
    let asset_id = create(&mut c, "Transferable Asset", "TRFR", AssetType::RealEstate, 1000000, 100000000, 100, false);
    c.invest(INVESTOR, NOW, asset_id, INVESTOR, 5000, PAYMENT_TOKEN, 500000).unwrap();
    let result = c.transfer(INVESTOR, NOW, asset_id, INVESTOR, INVESTOR2, 2000);
    assert_eq!(result, Ok(true));
    assert_eq!(c.get_holding(asset_id, INVESTOR).unwrap().amount, 3000);
    assert_eq!(c.get_holding(asset_id, INVESTOR2).unwrap().amount, 2000);
}

#[test]
fn test_transfer_non_transferable() {
    let mut c = setup_with_investor(INVESTOR, false);
    let kyc_expiry = NOW + 365 * 86400;
    c.register_investor(ADMIN, NOW, INVESTOR2, false, s("US"), kyc_expiry).unwrap();
    let asset_id = create(&mut c, "Non-Transferable", "NOTR", AssetType::Security, 1000000, 100000000, 100, false);
    c.set_asset_transferable(ADMIN, asset_id, false).unwrap();
    c.invest(INVESTOR, NOW, asset_id, INVESTOR, 5000, PAYMENT_TOKEN, 500000).unwrap();
    let result = c.transfer(INVESTOR, NOW, asset_id, INVESTOR, INVESTOR2, 2000);
    assert_eq!(result, Err(RwaError::InvalidState));
}

#[test]
fn test_create_distribution() {
    let mut c = setup_with_investor(INVESTOR, false);
    let asset_id = create(&mut c, "Dividend Asset", "DIV", AssetType::RealEstate, 1000000, 100000000, 100, false);
    c.invest(INVESTOR, NOW, asset_id, INVESTOR, 10000, PAYMENT_TOKEN, 1000000).unwrap();
    let distribution_id = c.create_distribution(ADMIN, NOW, asset_id, 50000, DIST_TOKEN).unwrap();
    assert_eq!(distribution_id, 1);
    let distribution = c.get_distribution(distribution_id).unwrap();
    assert_eq!(distribution.asset_id, asset_id);
    assert_eq!(distribution.total_amount, 50000);
}

#[test]
fn test_claim_distribution() {
    let mut c = setup_with_investor(INVESTOR, false);
    let asset_id = create(&mut c, "Dividend Asset", "DIV", AssetType::RealEstate, 100000, 10000000, 100, false);
    c.invest(INVESTOR, NOW, asset_id, INVESTOR, 10000, PAYMENT_TOKEN, 1000000).unwrap();
    let distribution_id = c.create_distribution(ADMIN, NOW, asset_id, 100000, DIST_TOKEN).unwrap();
    let investor_balance_before = balance_change(&c, DIST_TOKEN, INVESTOR);
    let claimed = c.claim_distribution(INVESTOR, distribution_id, INVESTOR).unwrap();
    let investor_balance_after = balance_change(&c, DIST_TOKEN, INVESTOR);
    assert!(claimed > 0);
    assert_eq!(investor_balance_after, investor_balance_before + claimed);
}

#[test]
fn test_claim_distribution_twice() {
    let mut c = setup_with_investor(INVESTOR, false);
    let asset_id = create(&mut c, "Test", "TST", AssetType::RealEstate, 100000, 10000000, 100, false);
    c.invest(INVESTOR, NOW, asset_id, INVESTOR, 10000, PAYMENT_TOKEN, 1000000).unwrap();
    let distribution_id = c.create_distribution(ADMIN, NOW, asset_id, 100000, DIST_TOKEN).unwrap();
    c.claim_distribution(INVESTOR, distribution_id, INVESTOR).unwrap();
    let second = c.claim_distribution(INVESTOR, distribution_id, INVESTOR);
    assert_eq!(second, Err(RwaError::AlreadyClaimed));
}

#[test]
fn test_get_asset() {
    let (c, asset_id) = setup_with_asset();
    let asset = c.get_asset(asset_id);
    assert!(asset.is_some());
    let asset = asset.unwrap();
    assert_eq!(asset.asset_id, asset_id);
    assert_eq!(asset.total_supply, 1000000);
}

#[test]
fn test_get_nonexistent_asset() {
    let c = setup_test_env();
    assert!(c.get_asset(999).is_none());
}

#[test]
fn test_get_investor() {
    let c = setup_with_investor(INVESTOR, true);
    let investor_data = c.get_investor(INVESTOR);
    assert!(investor_data.is_some());
    assert!(investor_data.unwrap().is_accredited);
}

#[test]
fn test_check_eligibility() {
    let mut c = setup_with_investor(INVESTOR, true);
    let asset_id = create(&mut c, "Test", "TST", AssetType::Security, 1000000, 100000000, 100, true);
    assert!(c.check_eligibility(NOW, asset_id, INVESTOR));
}

#[test]
fn test_get_token_price() {
    let (c, asset_id) = setup_with_asset();
    assert_eq!(c.get_token_price(asset_id), 100);
}

#[test]
fn test_get_tvl() {
    let mut c = setup_test_env();
    assert_eq!(c.get_tvl(), 0);
    create(&mut c, "Asset 1", "A1", AssetType::RealEstate, 1000000, 100000000, 100, false);
    assert_eq!(c.get_tvl(), 100000000);
    create(&mut c, "Asset 2", "A2", AssetType::Commodity, 500000, 50000000, 50, false);
    assert_eq!(c.get_tvl(), 150000000);
}

#[test]
fn test_is_distribution_claimed() {
    let mut c = setup_with_investor(INVESTOR, false);
    let asset_id = create(&mut c, "Test", "TST", AssetType::RealEstate, 100000, 10000000, 100, false);
    c.invest(INVESTOR, NOW, asset_id, INVESTOR, 10000, PAYMENT_TOKEN, 1000000).unwrap();
    let distribution_id = c.create_distribution(ADMIN, NOW, asset_id, 100000, DIST_TOKEN).unwrap();
    assert!(!c.is_distribution_claimed(distribution_id, INVESTOR));
    c.claim_distribution(INVESTOR, distribution_id, INVESTOR).unwrap();
    assert!(c.is_distribution_claimed(distribution_id, INVESTOR));
}
