use steller_contracts::{FiatOfframpContract, OfframpError, OfframpType, RequestStatus};

const ADMIN: u64 = 1;
const FEE_COLLECTOR: u64 = 2;
const USER: u64 = 3;

fn initialized() -> FiatOfframpContract {
    let mut c = FiatOfframpContract::new();
    c.initialize(ADMIN, FEE_COLLECTOR, 100).unwrap();
    c
}

#[test]
fn lib_test_initialize() {
    let mut c = FiatOfframpContract::new();
    c.initialize(ADMIN, FEE_COLLECTOR, 100).unwrap();
    assert_eq!(c.initialize(ADMIN, FEE_COLLECTOR, 100), Err(OfframpError::AlreadyInitialized));
}

#[test]
fn test_upi_offramp() {
    let mut c = initialized();
    let upi_id = "user@upi".to_string();
    let name = "John Doe".to_string();
    let request_id = c.request_upi_offramp(USER, 0, USER, 100_000_000, upi_id, name).unwrap();
    assert_eq!(request_id, 1);
    let request = c.get_request(request_id).unwrap();
    assert_eq!(request.offramp_type, OfframpType::UPI);
}

#[test]
fn request_amounts_follow_fee_and_rate() {
    let mut c = initialized();
    let id = c.request_upi_offramp(USER, 5, USER, 100_000_000, "u@upi".to_string(), "U".to_string()).unwrap();
    let q = c.get_request(id).unwrap();
    // One percent fee: 1_000_000; rate 10 INR per XLM over the remaining 99_000_000.
    assert_eq!(q.fee, 1_000_000);
    assert_eq!(q.amount_fiat, 990_000_000);
    assert_eq!(q.exchange_rate, 100_000_000);
    assert_eq!(q.currency, "INR");
    assert_eq!(q.ifsc_code, "");
    assert_eq!(q.created_at, 5);
    assert_eq!(q.status, RequestStatus::Pending);
    assert_eq!(c.get_total_volume(), 100_000_000);
    assert_eq!(c.get_fee(100_000_000), 1_000_000);
}

#[test]
fn request_limits_and_pause() {
    let mut c = FiatOfframpContract::new();
    assert_eq!(c.request_upi_offramp(USER, 0, USER, 50_000_000, "a".to_string(), "b".to_string()), Err(OfframpError::NotInitialized));
    c.initialize(ADMIN, FEE_COLLECTOR, 100).unwrap();
    assert_eq!(c.request_upi_offramp(USER, 0, USER, 9_999_999, "a".to_string(), "b".to_string()), Err(OfframpError::AmountBelowMinimum));
    assert_eq!(c.request_upi_offramp(USER, 0, USER, 100_000_000_001, "a".to_string(), "b".to_string()), Err(OfframpError::AmountAboveMaximum));
    assert_eq!(c.request_upi_offramp(ADMIN, 0, USER, 50_000_000, "a".to_string(), "b".to_string()), Err(OfframpError::Unauthorized));
    assert_eq!(c.set_paused(USER, USER, true), Err(OfframpError::Unauthorized));
    c.set_paused(ADMIN, ADMIN, true).unwrap();
    assert_eq!(c.request_bank_offramp(USER, 0, USER, 50_000_000, "1".to_string(), "b".to_string(), "IFSC".to_string()), Err(OfframpError::Paused));
    c.set_paused(ADMIN, ADMIN, false).unwrap();
    assert_eq!(c.request_bank_offramp(USER, 0, USER, 50_000_000, "1".to_string(), "b".to_string(), "IFSC".to_string()), Ok(1));
    assert_eq!(c.get_request(1).unwrap().ifsc_code, "IFSC");
}

#[test]
fn processing_and_cancelling() {
    let mut c = initialized();
    c.request_upi_offramp(USER, 0, USER, 20_000_000, "a".to_string(), "b".to_string()).unwrap();
    c.request_upi_offramp(USER, 0, USER, 30_000_000, "a".to_string(), "b".to_string()).unwrap();
    c.request_upi_offramp(9, 0, 9, 30_000_000, "a".to_string(), "b".to_string()).unwrap();
    assert_eq!(c.get_user_requests(USER), vec![1, 2]);
    assert_eq!(c.process_request(ADMIN, 77, ADMIN, 1, true), Ok(()));
    assert_eq!(c.get_request(1).unwrap().status, RequestStatus::Completed);
    assert_eq!(c.get_request(1).unwrap().processed_at, 77);
    assert_eq!(c.process_request(ADMIN, 78, ADMIN, 1, false), Err(OfframpError::InvalidState));
    assert_eq!(c.process_request(ADMIN, 78, ADMIN, 4, false), Err(OfframpError::NotFound));
    assert_eq!(c.cancel_request(9, 9, 2), Err(OfframpError::Unauthorized));
    assert_eq!(c.cancel_request(USER, USER, 2), Ok(()));
    assert_eq!(c.get_request(2).unwrap().status, RequestStatus::Cancelled);
    assert_eq!(c.cancel_request(USER, USER, 2), Err(OfframpError::InvalidState));
    assert_eq!(c.process_request(ADMIN, 79, ADMIN, 3, false), Ok(()));
    assert_eq!(c.get_request(3).unwrap().status, RequestStatus::Failed);
}

#[test]
fn rates_and_processing_times() {
    let mut c = FiatOfframpContract::new();
    assert_eq!(c.get_processing_time(OfframpType::UPI), 24);
    assert_eq!(c.get_exchange_rate(&"INR".to_string()), 0);
    assert_eq!(c.get_fee(10_000), 100);
    assert_eq!(c.set_exchange_rate(ADMIN, ADMIN, "USD".to_string(), 5), Err(OfframpError::NotInitialized));
    c.initialize(ADMIN, FEE_COLLECTOR, 250).unwrap();
    assert_eq!(c.get_processing_time(OfframpType::UPI), 1);
    assert_eq!(c.get_processing_time(OfframpType::Bank), 24);
    assert_eq!(c.get_exchange_rate(&"INR".to_string()), 100_000_000);
    c.set_exchange_rate(ADMIN, ADMIN, "INR".to_string(), 200_000_000).unwrap();
    assert_eq!(c.get_exchange_rate(&"INR".to_string()), 200_000_000);
    assert_eq!(c.get_exchange_rate(&"USD".to_string()), 0);
    assert_eq!(c.get_fee(10_000), 250);
    let id = c.request_upi_offramp(USER, 0, USER, 100_000_000, "a".to_string(), "b".to_string()).unwrap();
    assert_eq!(c.get_request(id).unwrap().amount_fiat, 1_950_000_000);
}
