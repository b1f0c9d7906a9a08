use steller_contracts::stock_trading::{OrderStatus, OrderType, StockError, StockTradingContract};

const ADMIN: u64 = 1;
const FEE_RECIPIENT: u64 = 2;
const TRADER: u64 = 3;

fn s(text: &str) -> String {
    text.to_string()
}

fn listed(fee_percent: u32, code: &str, name: &str, price: i128, supply: i128) -> StockTradingContract {
    let mut c = StockTradingContract::new();
    c.initialize(ADMIN, ADMIN, FEE_RECIPIENT, fee_percent).unwrap();
    c.add_asset(ADMIN, s(code), s(name), price, supply).unwrap();
    c
}

#[test]
fn stock_trading_initialize() {
    let mut c = StockTradingContract::new();
    assert_eq!(c.initialize(ADMIN, ADMIN, FEE_RECIPIENT, 100), Ok(()));
    assert_eq!(c.initialize(ADMIN, ADMIN, FEE_RECIPIENT, 100), Err(StockError::AlreadyInitialized));
}

#[test]
fn test_add_asset_and_buy() {
    let mut c = listed(100, "BTC", "Bitcoin", 500000000000, 21000000);
    let order = c.buy(TRADER, 0, TRADER, s("BTC"), 100).unwrap();
    assert_eq!(order.quantity, 100);
    assert!(matches!(order.status, OrderStatus::Filled));
    let holdings = c.get_user_holdings(TRADER);
    assert_eq!(holdings.len(), 1);
    assert_eq!(holdings[0].quantity, 100);
}

#[test]
fn test_buy_and_sell() {
    let mut c = listed(0, "ETH", "Ethereum", 30000000000, 1000000);
    c.buy(TRADER, 0, TRADER, s("ETH"), 50).unwrap();
    assert_eq!(c.get_user_holdings(TRADER)[0].quantity, 50);
    c.sell(TRADER, 0, TRADER, s("ETH"), 25).unwrap();
    assert_eq!(c.get_user_holdings(TRADER)[0].quantity, 25);
}

#[test]
fn test_portfolio_value() {
    let mut c = listed(0, "SOL", "Solana", 1000000000, 500000000);
    c.buy(TRADER, 0, TRADER, s("SOL"), 10).unwrap();
    assert_eq!(c.get_portfolio_value(TRADER), Some(10 * 1000000000));
}

#[test]
fn trades_move_supply_volume_and_cost_basis() {
    let mut c = listed(100, "ETH", "Ethereum", 1_000, 500);
    c.buy(TRADER, 1, TRADER, s("ETH"), 100).unwrap();
    c.update_price(ADMIN, s("ETH"), 3_000).unwrap();
    c.buy(TRADER, 2, TRADER, s("ETH"), 100).unwrap();
    let h = c.get_user_holding(TRADER, &s("ETH")).unwrap();
    assert_eq!((h.quantity, h.total_invested, h.avg_buy_price), (200, 400_000, 2_000));
    assert_eq!(c.get_asset(&s("ETH")).unwrap().available_supply, 300);
    assert_eq!(c.get_asset_volume(&s("ETH")), 400_000);
    // Selling a quarter keeps the average price and removes a quarter of the cost.
    c.sell(TRADER, 3, TRADER, s("ETH"), 50).unwrap();
    let h = c.get_user_holding(TRADER, &s("ETH")).unwrap();
    assert_eq!((h.quantity, h.total_invested, h.avg_buy_price), (150, 300_000, 2_000));
    assert_eq!(c.get_asset(&s("ETH")).unwrap().available_supply, 350);
    assert_eq!(c.get_asset_volume(&s("ETH")), 550_000);
    assert_eq!(c.get_portfolio_pnl(TRADER), Some(150 * 3_000 - 300_000));
    c.sell(TRADER, 4, TRADER, s("ETH"), 150).unwrap();
    assert!(c.get_user_holding(TRADER, &s("ETH")).is_none());
    assert!(c.get_user_holdings(TRADER).is_empty());
    assert_eq!(c.get_user_orders(TRADER).len(), 4);
}

#[test]
fn trade_refusals() {
    let mut c = StockTradingContract::new();
    assert_eq!(c.buy(TRADER, 0, TRADER, s("X"), 1).map(|o| o.id), Err(StockError::NotInitialized));
    c.initialize(ADMIN, ADMIN, FEE_RECIPIENT, 0).unwrap();
    assert_eq!(c.add_asset(TRADER, s("X"), s("X"), 1, 1), Err(StockError::Unauthorized));
    c.add_asset(ADMIN, s("X"), s("X"), 10, 5).unwrap();
    assert_eq!(c.buy(ADMIN, 0, TRADER, s("X"), 1).map(|o| o.id), Err(StockError::Unauthorized));
    assert_eq!(c.buy(TRADER, 0, TRADER, s("Y"), 1).map(|o| o.id), Err(StockError::NotFound));
    assert_eq!(c.buy(TRADER, 0, TRADER, s("X"), 0).map(|o| o.id), Err(StockError::InvalidArgument));
    assert_eq!(c.buy(TRADER, 0, TRADER, s("X"), 6).map(|o| o.id), Err(StockError::InsufficientSupply));
    assert_eq!(c.sell(TRADER, 0, TRADER, s("X"), 1).map(|o| o.id), Err(StockError::NotFound));
    c.buy(TRADER, 0, TRADER, s("X"), 2).unwrap();
    assert_eq!(c.sell(TRADER, 0, TRADER, s("X"), 3).map(|o| o.id), Err(StockError::InsufficientHoldings));
    c.set_asset_active(ADMIN, s("X"), false).unwrap();
    assert_eq!(c.buy(TRADER, 0, TRADER, s("X"), 1).map(|o| o.id), Err(StockError::InvalidState));
    assert_eq!(c.update_price(ADMIN, s("Y"), 1), Err(StockError::NotFound));
}

#[test]
fn limit_orders_rest_until_cancelled() {
    let mut c = listed(0, "X", "X", 10, 100);
    assert_eq!(
        c.place_limit_order(TRADER, 5, TRADER, s("X"), OrderType::Sell, 1, 12).map(|o| o.id),
        Err(StockError::NotFound)
    );
    let o = c.place_limit_order(TRADER, 5, TRADER, s("X"), OrderType::Buy, 4, 9).unwrap();
    assert_eq!((o.id, o.filled_quantity, o.price, o.status), (1, 0, 9, OrderStatus::Pending));
    assert_eq!(c.cancel_order(ADMIN, ADMIN, o.id), Err(StockError::NotFound));
    assert_eq!(c.cancel_order(TRADER, TRADER, o.id), Ok(()));
    assert_eq!(c.get_order(TRADER, o.id).unwrap().status, OrderStatus::Cancelled);
    assert_eq!(c.cancel_order(TRADER, TRADER, o.id), Err(StockError::InvalidState));
    assert_eq!(c.cancel_order(TRADER, TRADER, 9), Err(StockError::NotFound));
    c.set_fee_percent(ADMIN, 50).unwrap();
    let b = c.buy(TRADER, 6, TRADER, s("X"), 2).unwrap();
    assert_eq!(b.id, 2);
    assert_eq!(c.cancel_order(TRADER, TRADER, b.id), Err(StockError::InvalidState));
}
