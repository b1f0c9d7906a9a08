use steller_contracts::{AssetType, RWAContract, RwaError, RwaEvent, TokenTransfer};

const LEDGER: u64 = 100;
const ADMIN: u64 = 1;
const CUSTODIAN: u64 = 2;
const ALICE: u64 = 3;
const BOB: u64 = 4;
const CAROL: u64 = 5;
const PAYMENT_TOKEN: u64 = 10;
const ASSET_TOKEN: u64 = 11;
const DIST_TOKEN: u64 = 12;
const KYC_EXPIRY: u64 = 365 * 86400;

fn ledger_with_investors() -> RWAContract {
    let mut c = RWAContract::new(LEDGER);
    c.initialize(ADMIN, ADMIN).unwrap();
    c.whitelist_country(ADMIN, "US".to_string(), true).unwrap();
    c.register_investor(ADMIN, 0, ALICE, false, "US".to_string(), KYC_EXPIRY).unwrap();
    c.register_investor(ADMIN, 0, BOB, false, "US".to_string(), KYC_EXPIRY).unwrap();
    c
}

fn add_asset(c: &mut RWAContract, supply: i128, value: i128, min: i128) -> u64 {
    c.create_asset(
        ADMIN,
        0,
        "Asset".to_string(),
        "AST".to_string(),
        AssetType::RealEstate,
        supply,
        value,
        CUSTODIAN,
        ASSET_TOKEN,
        min,
        false,
    )
    .unwrap()
}

fn held(c: &RWAContract, asset_id: u64) -> i128 {
    let mut total: i128 = 0;
    for who in [ALICE, BOB, CAROL] {
        if let Some(h) = c.get_holding(asset_id, who) {
            total += h.amount;
        }
    }
    total
}

#[test]
fn supply_stays_within_bounds_and_matches_holdings() {
    let mut c = ledger_with_investors();
    let a = add_asset(&mut c, 10_000, 1_000_000, 1);
    c.invest(ALICE, 0, a, ALICE, 6_000, PAYMENT_TOKEN, 60_000).unwrap();
    c.invest(BOB, 0, a, BOB, 3_000, PAYMENT_TOKEN, 30_000).unwrap();
    assert_eq!(c.invest(BOB, 0, a, BOB, 1_001, PAYMENT_TOKEN, 1), Err(RwaError::CapacityExceeded));
    c.transfer(ALICE, 0, a, ALICE, BOB, 2_500).unwrap();
    c.transfer(BOB, 0, a, BOB, BOB, 100).unwrap();
    c.invest(ALICE, 0, a, ALICE, 1_000, PAYMENT_TOKEN, 10_000).unwrap();
    let asset = c.get_asset(a).unwrap();
    assert!(0 <= asset.circulating_supply && asset.circulating_supply <= asset.total_supply);
    assert_eq!(asset.circulating_supply, 10_000);
    assert_eq!(held(&c, a), asset.circulating_supply);
    assert_eq!(c.get_holding(a, ALICE).unwrap().amount, 4_500);
    assert_eq!(c.get_holding(a, BOB).unwrap().amount, 5_500);
}

#[test]
fn tvl_tracks_active_valuations() {
    let mut c = ledger_with_investors();
    let a = add_asset(&mut c, 1_000, 5_000, 1);
    let b = add_asset(&mut c, 1_000, 7_000, 1);
    assert_eq!(c.get_tvl(), 12_000);
    c.update_valuation(ADMIN, 5, a, 2_000).unwrap();
    assert_eq!(c.get_tvl(), 9_000);
    c.update_valuation(ADMIN, 6, b, -1_000).unwrap();
    assert_eq!(c.get_tvl(), 1_000);
    assert_eq!(c.get_asset(b).unwrap().last_valuation, 6);
    let sum: i128 = [a, b].iter().map(|id| c.get_asset(*id).unwrap().asset_value_usd).sum();
    assert_eq!(c.get_tvl(), sum);
}

#[test]
fn claim_pays_exactly_once() {
    let mut c = ledger_with_investors();
    let a = add_asset(&mut c, 100_000, 10_000_000, 100);
    c.invest(ALICE, 0, a, ALICE, 10_000, PAYMENT_TOKEN, 1_000_000).unwrap();
    let d = c.create_distribution(ADMIN, 10, a, 100_000, DIST_TOKEN).unwrap();
    let before = c.transfers().len();
    let paid = c.claim_distribution(ALICE, d, ALICE).unwrap();
    assert_eq!(c.transfers().len(), before + 1);
    assert_eq!(
        c.transfers()[before],
        TokenTransfer { token: DIST_TOKEN, from: LEDGER, to: ALICE, amount: paid }
    );
    assert_eq!(c.claim_distribution(ALICE, d, ALICE), Err(RwaError::AlreadyClaimed));
    assert_eq!(c.transfers().len(), before + 1);
}

#[test]
fn minimum_investment_is_inclusive() {
    let mut c = ledger_with_investors();
    let a = add_asset(&mut c, 1_000_000, 100_000_000, 100);
    assert_eq!(c.invest(ALICE, 0, a, ALICE, 99, PAYMENT_TOKEN, 9_900), Err(RwaError::InvalidArgument));
    assert_eq!(c.invest(ALICE, 0, a, ALICE, 100, PAYMENT_TOKEN, 10_000), Ok(true));
}

#[test]
fn scenario_token_price() {
    let mut c = ledger_with_investors();
    let a = add_asset(&mut c, 1_000_000, 100_000_000, 100);
    assert_eq!(c.get_token_price(a), 100);
    assert_eq!(c.get_token_price(a + 1), 0);
}

#[test]
fn scenario_invest_and_distribute() {
    let mut c = ledger_with_investors();
    let a = add_asset(&mut c, 1_000_000, 100_000_000, 100);
    assert_eq!(c.invest(ALICE, 0, a, ALICE, 10_000, PAYMENT_TOKEN, 1_000_000), Ok(true));
    assert_eq!(c.get_holding(a, ALICE).unwrap().amount, 10_000);
    assert_eq!(c.get_asset(a).unwrap().circulating_supply, 10_000);
    assert_eq!(c.get_investor(ALICE).unwrap().total_invested, 1_000_000);
    let d = c.create_distribution(ADMIN, 0, a, 100_000, DIST_TOKEN).unwrap();
    assert_eq!(c.get_distribution(d).unwrap().per_token_amount, 10);
    assert_eq!(c.claim_distribution(ALICE, d, ALICE), Ok(100_000));
    assert_eq!(c.claim_distribution(ALICE, d, ALICE), Err(RwaError::AlreadyClaimed));
}

#[test]
fn scenario_transfer_to_unregistered_changes_nothing() {
    let mut c = ledger_with_investors();
    let a = add_asset(&mut c, 1_000_000, 100_000_000, 100);
    c.invest(ALICE, 0, a, ALICE, 10_000, PAYMENT_TOKEN, 1_000_000).unwrap();
    let transfers = c.transfers().len();
    let events = c.events().len();
    assert_eq!(c.transfer(ALICE, 0, a, ALICE, CAROL, 2_000), Err(RwaError::NotRegistered));
    assert_eq!(c.get_holding(a, ALICE).unwrap().amount, 10_000);
    assert!(c.get_holding(a, CAROL).is_none());
    assert_eq!(c.transfers().len(), transfers);
    assert_eq!(c.events().len(), events);
}

#[test]
fn scenario_non_transferable_still_investable() {
    let mut c = ledger_with_investors();
    let a = add_asset(&mut c, 1_000_000, 100_000_000, 100);
    c.invest(ALICE, 0, a, ALICE, 5_000, PAYMENT_TOKEN, 500_000).unwrap();
    assert_eq!(c.set_asset_transferable(ADMIN, a, false), Ok(true));
    assert_eq!(c.transfer(ALICE, 0, a, ALICE, BOB, 2_000), Err(RwaError::InvalidState));
    assert_eq!(c.invest(BOB, 0, a, BOB, 1_000, PAYMENT_TOKEN, 100_000), Ok(true));
}

#[test]
fn invest_records_transfers_event_and_mean_price() {
    let mut c = ledger_with_investors();
    let a = add_asset(&mut c, 1_000_000, 100_000_000, 1);
    c.invest(ALICE, 7, a, ALICE, 100, PAYMENT_TOKEN, 10_000).unwrap();
    let n = c.transfers().len();
    assert_eq!(c.transfers()[n - 2], TokenTransfer { token: PAYMENT_TOKEN, from: ALICE, to: CUSTODIAN, amount: 10_000 });
    assert_eq!(c.transfers()[n - 1], TokenTransfer { token: ASSET_TOKEN, from: ADMIN, to: ALICE, amount: 100 });
    assert!(matches!(
        c.events().last(),
        Some(RwaEvent::Investment { asset_id, investor: ALICE, amount: 100, payment_amount: 10_000 }) if *asset_id == a
    ));
    // 100 per unit, then 301 per unit: the unweighted mean is (100 + 301) / 2.
    c.invest(ALICE, 9, a, ALICE, 300, PAYMENT_TOKEN, 90_300).unwrap();
    let h = c.get_holding(a, ALICE).unwrap();
    assert_eq!(h.amount, 400);
    assert_eq!(h.purchase_price, 200);
    assert_eq!(h.acquired_at, 7);
}

#[test]
fn transfer_opens_recipient_holding_without_cost_basis() {
    let mut c = ledger_with_investors();
    let a = add_asset(&mut c, 1_000_000, 100_000_000, 1);
    c.invest(ALICE, 0, a, ALICE, 500, PAYMENT_TOKEN, 50_000).unwrap();
    c.transfer(ALICE, 42, a, ALICE, BOB, 200).unwrap();
    let h = c.get_holding(a, BOB).unwrap();
    assert_eq!((h.amount, h.purchase_price, h.acquired_at, h.locked_until), (200, 0, 42, 0));
    assert_eq!(c.transfer(ALICE, 42, a, ALICE, BOB, 301), Err(RwaError::InsufficientBalance));
    assert_eq!(c.transfer(ALICE, 42, a, ALICE, BOB, -1), Err(RwaError::InvalidArgument));
    assert_eq!(c.transfer(BOB, 42, a, ALICE, BOB, 1), Err(RwaError::Unauthorized));
    assert_eq!(c.transfer(CAROL, 42, a, CAROL, BOB, 1), Err(RwaError::NotFound));
}

#[test]
fn late_buyers_are_not_eligible() {
    let mut c = ledger_with_investors();
    let a = add_asset(&mut c, 1_000_000, 100_000_000, 1);
    c.invest(ALICE, 0, a, ALICE, 1_000, PAYMENT_TOKEN, 1_000).unwrap();
    let d = c.create_distribution(ADMIN, 10, a, 5_000, DIST_TOKEN).unwrap();
    c.invest(BOB, 11, a, BOB, 1_000, PAYMENT_TOKEN, 1_000).unwrap();
    assert_eq!(c.claim_distribution(BOB, d, BOB), Err(RwaError::NotEligible));
    assert_eq!(c.claim_distribution(CAROL, d, CAROL), Err(RwaError::NotFound));
    assert_eq!(c.claim_distribution(ALICE, d + 1, ALICE), Err(RwaError::NotFound));
    assert_eq!(c.claim_distribution(ALICE, d, ALICE), Ok(5_000));
}

#[test]
fn dust_distribution_has_nothing_to_claim() {
    let mut c = ledger_with_investors();
    let a = add_asset(&mut c, 1_000_000, 100_000_000, 1);
    c.invest(ALICE, 0, a, ALICE, 1_000, PAYMENT_TOKEN, 1_000).unwrap();
    let d = c.create_distribution(ADMIN, 0, a, 999, DIST_TOKEN).unwrap();
    assert_eq!(c.get_distribution(d).unwrap().per_token_amount, 0);
    assert_eq!(c.claim_distribution(ALICE, d, ALICE), Err(RwaError::NothingToClaim));
}

#[test]
fn distribution_needs_circulating_supply() {
    let mut c = ledger_with_investors();
    let a = add_asset(&mut c, 1_000_000, 100_000_000, 1);
    assert_eq!(c.create_distribution(ADMIN, 0, a, 100, DIST_TOKEN), Err(RwaError::InvalidState));
    assert_eq!(c.create_distribution(ADMIN, 0, a + 1, 100, DIST_TOKEN), Err(RwaError::NotFound));
    assert_eq!(c.create_distribution(ALICE, 0, a, 100, DIST_TOKEN), Err(RwaError::Unauthorized));
}

#[test]
fn administration_errors() {
    let mut c = RWAContract::new(LEDGER);
    assert_eq!(c.set_admin(ADMIN, BOB), Err(RwaError::NotInitialized));
    assert_eq!(c.initialize(ALICE, ADMIN), Err(RwaError::Unauthorized));
    c.initialize(ADMIN, ADMIN).unwrap();
    assert_eq!(c.initialize(ADMIN, ADMIN), Err(RwaError::AlreadyInitialized));
    assert_eq!(c.blacklist_address(ALICE, BOB, true), Err(RwaError::Unauthorized));
    assert_eq!(c.update_accreditation(ADMIN, BOB, true), Ok(false));
    assert_eq!(c.set_asset_transferable(ADMIN, 9, true), Ok(false));
}

#[test]
fn compliance_gates_investment() {
    let mut c = ledger_with_investors();
    let a = add_asset(&mut c, 1_000_000, 100_000_000, 1);
    c.blacklist_address(ADMIN, ALICE, true).unwrap();
    assert_eq!(c.invest(ALICE, 0, a, ALICE, 10, PAYMENT_TOKEN, 10), Err(RwaError::ComplianceViolation));
    c.blacklist_address(ADMIN, ALICE, false).unwrap();
    assert_eq!(c.invest(ALICE, KYC_EXPIRY + 1, a, ALICE, 10, PAYMENT_TOKEN, 10), Err(RwaError::ComplianceViolation));
    assert!(!c.check_eligibility(KYC_EXPIRY + 1, a, ALICE));
    assert!(c.check_eligibility(KYC_EXPIRY, a, ALICE));
    assert_eq!(c.invest(ALICE, 0, a + 1, ALICE, 10, PAYMENT_TOKEN, 10), Err(RwaError::NotFound));
    assert_eq!(c.invest(ALICE, 0, a, ALICE, 0, PAYMENT_TOKEN, 10), Err(RwaError::InvalidArgument));
    assert_eq!(c.invest(ALICE, 0, a, ALICE, 10, PAYMENT_TOKEN, -1), Err(RwaError::InvalidArgument));
    assert_eq!(c.invest(ALICE, 0, a, ALICE, 10, PAYMENT_TOKEN, 10), Ok(true));
}

#[test]
fn running_totals_refuse_overflow() {
    let mut c = ledger_with_investors();
    add_asset(&mut c, 1, i128::MAX, 1);
    let r = c.create_asset(
        ADMIN,
        0,
        "B".to_string(),
        "B".to_string(),
        AssetType::Other,
        1,
        1,
        CUSTODIAN,
        ASSET_TOKEN,
        1,
        false,
    );
    assert_eq!(r, Err(RwaError::Overflow));
    assert_eq!(c.get_asset_count(), 1);
    assert_eq!(c.get_tvl(), i128::MAX);
}

#[test]
fn token_price_truncates_toward_zero() {
    let mut c = ledger_with_investors();
    let a = add_asset(&mut c, 2, 7, 1);
    assert_eq!(c.get_token_price(a), 3);
    c.update_valuation(ADMIN, 0, a, -7).unwrap();
    assert_eq!(c.get_token_price(a), -3);
}
