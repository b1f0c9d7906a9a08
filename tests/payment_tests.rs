use steller_contracts::{PaymentContract, PaymentError, PaymentEvent, TokenTransfer};

const FROM: u64 = 1;
const TO: u64 = 2;
const TOKEN: u64 = 3;

#[test]
fn test_payment() {
    let mut c = PaymentContract::new();
    assert_eq!(c.pay(FROM, TOKEN, FROM, TO, 250), Ok(true));
    assert_eq!(c.transfers()[0], TokenTransfer { token: TOKEN, from: FROM, to: TO, amount: 250 });
    assert_eq!(c.pay(FROM, TOKEN, FROM, TO, 0), Ok(false));
    assert_eq!(c.pay(TO, TOKEN, FROM, TO, 5), Err(PaymentError::Unauthorized));
    assert_eq!(c.transfers().len(), 1);
}

#[test]
fn batch_pays_positive_amounts_in_order() {
    let mut c = PaymentContract::new();
    assert_eq!(c.batch_pay(FROM, TOKEN, FROM, vec![5, 6, 7], vec![10, 0, 30]), Ok(true));
    assert_eq!(
        c.transfers().clone(),
        vec![
            TokenTransfer { token: TOKEN, from: FROM, to: 5, amount: 10 },
            TokenTransfer { token: TOKEN, from: FROM, to: 7, amount: 30 },
        ]
    );
    assert!(matches!(c.events()[0], PaymentEvent::BatchPayment { from: FROM, recipients: 3, amounts: 3 }));
    assert_eq!(c.batch_pay(FROM, TOKEN, FROM, vec![5, 6], vec![10]), Ok(false));
    assert_eq!(c.transfers().len(), 2);
}

#[test]
fn memo_travels_with_the_payment() {
    let mut c = PaymentContract::new();
    assert_eq!(c.pay_with_memo(FROM, TOKEN, FROM, TO, 9, "rent".to_string()), Ok(true));
    match &c.events()[0] {
        PaymentEvent::PaymentWithMemo { memo, amount, .. } => {
            assert_eq!(memo, "rent");
            assert_eq!(*amount, 9);
        }
        _ => panic!("expected a memo payment"),
    }
}
