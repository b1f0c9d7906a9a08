use steller_contracts::{LoanContract, LoanError, LoanEvent, TokenTransfer, EMI_PERIOD_SECONDS};

const BORROWER: u64 = 2;
const LENDER: u64 = 3;
const TOKEN: u64 = 10;

#[test]
fn test_create_loan() {
    let mut c = LoanContract::new();
    assert_eq!(c.create_loan(LENDER, 1_000, 1, BORROWER, LENDER, 12_000, 500, 12, TOKEN), Ok(true));
    let loan = c.get_loan(1).unwrap();
    assert_eq!(loan.principal_amount, 12_000);
    assert_eq!(loan.amount_repaid, 0);
    assert_eq!(loan.start_time, 1_000);
    assert_eq!(loan.next_emi_due, 1_000 + 2_592_000);
    assert!(loan.is_active && !loan.is_defaulted);
    assert_eq!(c.transfers()[0], TokenTransfer { token: TOKEN, from: LENDER, to: BORROWER, amount: 12_000 });
    assert_eq!(c.events()[0], LoanEvent::LoanCreated { loan_id: 1, borrower: BORROWER, lender: LENDER, principal: 12_000 });
}

#[test]
fn loan_rejects_bad_terms() {
    let mut c = LoanContract::new();
    assert_eq!(c.create_loan(BORROWER, 0, 1, BORROWER, LENDER, 100, 0, 1, TOKEN), Err(LoanError::Unauthorized));
    assert_eq!(c.create_loan(LENDER, 0, 1, BORROWER, LENDER, 0, 0, 1, TOKEN), Ok(false));
    assert_eq!(c.create_loan(LENDER, 0, 1, BORROWER, LENDER, 100, 0, 0, TOKEN), Ok(false));
    assert_eq!(c.create_loan(LENDER, u64::MAX, 1, BORROWER, LENDER, 100, 0, 1, TOKEN), Err(LoanError::Overflow));
    assert!(c.get_loan(1).is_none());
}

#[test]
fn repayments_close_the_loan() {
    let mut c = LoanContract::new();
    c.create_loan(LENDER, 0, 1, BORROWER, LENDER, 1_000, 0, 2, TOKEN).unwrap();
    assert_eq!(c.pay_emi(LENDER, 10, 1, 1, TOKEN, 500), Err(LoanError::Unauthorized));
    assert_eq!(c.pay_emi(BORROWER, 10, 1, 1, TOKEN, -1), Err(LoanError::InvalidArgument));
    assert_eq!(c.pay_emi(BORROWER, 10, 1, 1, TOKEN, 500), Ok(true));
    let loan = c.get_loan(1).unwrap();
    assert_eq!((loan.amount_repaid, loan.next_emi_due, loan.is_active), (500, 10 + EMI_PERIOD_SECONDS, true));
    assert_eq!(c.pay_emi(BORROWER, 20, 1, 2, TOKEN, 500), Ok(true));
    assert!(!c.get_loan(1).unwrap().is_active);
    assert_eq!(c.pay_emi(BORROWER, 30, 1, 3, TOKEN, 500), Ok(false));
    assert_eq!(c.pay_emi(BORROWER, 30, 9, 1, TOKEN, 500), Ok(false));
    assert_eq!(c.transfers()[1], TokenTransfer { token: TOKEN, from: BORROWER, to: LENDER, amount: 500 });
}

#[test]
fn lender_marks_default_once() {
    let mut c = LoanContract::new();
    c.create_loan(LENDER, 0, 1, BORROWER, LENDER, 1_000, 0, 2, TOKEN).unwrap();
    assert_eq!(c.mark_default(BORROWER, 1), Err(LoanError::Unauthorized));
    assert_eq!(c.mark_default(LENDER, 1), Ok(true));
    assert!(c.get_loan(1).unwrap().is_defaulted);
    assert_eq!(c.mark_default(LENDER, 1), Ok(false));
    assert_eq!(c.mark_default(LENDER, 2), Ok(false));
}
