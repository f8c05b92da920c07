use tycoon::loan::{Loan, LoanType};

#[test]
fn test_flexible_loan_creation() {
    let loan = Loan::new_flexible(1, 100_000, 800);
    assert_eq!(loan.loan_type, LoanType::Flexible);
    assert_eq!(loan.principal, 100_000);
    assert_eq!(loan.balance, 100_000);
    assert_eq!(loan.interest_rate_bp, 800);
    assert!(loan.days_remaining.is_none());
}

#[test]
fn test_line_of_credit_creation() {
    let loan = Loan::new_line_of_credit(1, 100_000, 700);
    assert_eq!(loan.loan_type, LoanType::LineOfCredit);
    assert_eq!(loan.daily_payment, 2_000);

    let small_loan = Loan::new_line_of_credit(2, 20_000, 700);
    assert_eq!(small_loan.daily_payment, 1_000);
}

#[test]
fn test_term_loan_creation() {
    let loan = Loan::new_term_loan(1, 500_000, 600, 14);
    assert_eq!(loan.loan_type, LoanType::TermLoan);
    assert_eq!(loan.days_remaining, Some(14));
}

#[test]
fn test_interest_accrual() {
    let mut loan = Loan::new_flexible(1, 100_000, 365);
    loan.accrue_interest();
    assert!(loan.balance > 100_000);
    assert_eq!(loan.balance, 100_010);
}

#[test]
fn test_payment() {
    let mut loan = Loan::new_flexible(1, 100_000, 800);
    let paid = loan.make_payment(30_000);
    assert_eq!(paid, 30_000);
    assert_eq!(loan.balance, 70_000);

    let paid = loan.make_payment(100_000);
    assert_eq!(paid, 70_000);
    assert!(loan.is_paid_off());
}

#[test]
fn test_term_loan_due() {
    let mut loan = Loan::new_term_loan(1, 100_000, 600, 2);
    assert!(!loan.is_due());
    assert_eq!(loan.is_due_soon(), Some(2));

    loan.decrement_days();
    assert!(!loan.is_due());
    assert_eq!(loan.is_due_soon(), Some(1));

    loan.decrement_days();
    assert!(loan.is_due());
}

#[test]
fn test_auto_payment() {
    let loan = Loan::new_line_of_credit(1, 100_000, 700);
    assert_eq!(loan.get_auto_payment(), 2_000);

    let small_loan = Loan::new_line_of_credit(2, 30_000, 700);
    assert_eq!(small_loan.get_auto_payment(), 1_000);
}

#[test]
fn test_payment_never_overdraws_balance() {
    let mut loan = Loan::new_flexible(7, 50_000, 800);
    let paid = loan.make_payment(u64::MAX);
    assert_eq!(paid, 50_000);
    assert_eq!(loan.balance, 0);
    let paid_again = loan.make_payment(10);
    assert_eq!(paid_again, 0);
    assert_eq!(loan.balance, 0);
}

#[test]
fn test_default_penalty_is_quarter_of_balance() {
    let loan = Loan::new_term_loan(3, 100_000, 600, 7);
    assert_eq!(loan.default_penalty(), 25_000);
    let flexible = Loan::new_flexible(4, 100_000, 600);
    assert_eq!(flexible.default_penalty(), 0);
}
