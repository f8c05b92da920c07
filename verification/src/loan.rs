//! The loan ledger: three loan products with distinct interest and
//! repayment rules. Balances are cents; rates are annual, in basis points.

use vstd::prelude::*;
use crate::money::{cap_amount, MONEY_CAP};

verus! {

/// Smallest amount a single loan may be taken for, in cents.
pub const MIN_LOAN: u64 = 50_000;

/// Largest amount a single loan may be taken for, in cents.
pub const MAX_LOAN: u64 = 2_500_000;

/// Largest outstanding balance the player may carry over all loans, in cents.
pub const MAX_TOTAL_DEBT: u64 = 5_000_000;

/// How a loan is repaid.
#[derive(Debug, Clone, Copy, PartialEq, Eq, Structural)]
pub enum LoanType {
    /// Manual payments, highest interest.
    Flexible,
    /// A fixed share of the balance is deducted automatically each day.
    LineOfCredit,
    /// The full balance comes due at the end of the term.
    TermLoan,
}

impl LoanType {
    /// The surcharge over the economy's base rate, in basis points.
    pub open spec fn spec_rate_modifier_bp(self) -> int {
        match self {
            LoanType::Flexible => 200,
            LoanType::LineOfCredit => 100,
            LoanType::TermLoan => 0,
        }
    }

    /// Returns the surcharge over the economy's base rate.
    pub fn rate_modifier_bp(&self) -> (r: u32)
        ensures
            r == self.spec_rate_modifier_bp(),
    {
        match self {
            LoanType::Flexible => 200,
            LoanType::LineOfCredit => 100,
            LoanType::TermLoan => 0,
        }
    }

    /// A short description of the repayment rule.
    pub fn description(&self) -> (r: &'static str)
        ensures
            r@ == self.spec_description(),
    {
        match self {
            LoanType::Flexible => "Manual payments, pay any amount anytime",
            LoanType::LineOfCredit => "Auto-deduct 2% of balance daily (min $10)",
            LoanType::TermLoan => "Full amount due at end of term",
        }
    }

    /// The description as a character sequence.
    pub open spec fn spec_description(self) -> Seq<char> {
        match self {
            LoanType::Flexible => "Manual payments, pay any amount anytime"@,
            LoanType::LineOfCredit => "Auto-deduct 2% of balance daily (min $10)"@,
            LoanType::TermLoan => "Full amount due at end of term"@,
        }
    }

    /// The display name.
    pub fn name(&self) -> (r: &'static str)
        ensures
            r@ == self.spec_name(),
    {
        match self {
            LoanType::Flexible => "Flexible Loan",
            LoanType::LineOfCredit => "Line of Credit",
            LoanType::TermLoan => "Term Loan",
        }
    }

    /// The display name as a character sequence.
    pub open spec fn spec_name(self) -> Seq<char> {
        match self {
            LoanType::Flexible => "Flexible Loan"@,
            LoanType::LineOfCredit => "Line of Credit"@,
            LoanType::TermLoan => "Term Loan"@,
        }
    }
}

/// A loan taken by the player.
pub struct Loan {
    pub id: u32,
    pub loan_type: LoanType,
    /// The amount originally borrowed, in cents.
    pub principal: u64,
    /// The amount currently owed, in cents.
    pub balance: u64,
    /// The annual interest rate, in basis points.
    pub interest_rate_bp: u32,
    /// Days until the balance comes due; `Some` only for term loans.
    pub days_remaining: Option<u32>,
    /// The automatic daily payment fixed at creation; used by lines of credit.
    pub daily_payment: u64,
}

/// A balance after one day's simple interest, capped at `MONEY_CAP`.
pub open spec fn spec_accrued(balance: int, rate_bp: int) -> int {
    cap_amount(balance + balance * rate_bp / 3_650_000)
}

impl Loan {
    /// A valid loan: amounts within the money cap and a sane rate.
    pub open spec fn wf(self) -> bool {
        &&& self.balance <= MONEY_CAP
        &&& self.principal <= MONEY_CAP
        &&& self.interest_rate_bp <= 10_000
        &&& self.daily_payment <= MONEY_CAP
    }

    /// Creates a flexible loan (manual payments).
    pub fn new_flexible(id: u32, amount: u64, annual_rate_bp: u32) -> (r: Loan)
        ensures
            r == (Loan {
                id,
                loan_type: LoanType::Flexible,
                principal: amount,
                balance: amount,
                interest_rate_bp: annual_rate_bp,
                days_remaining: None,
                daily_payment: 0u64,
            }),
    {
        Loan {
            id,
            loan_type: LoanType::Flexible,
            principal: amount,
            balance: amount,
            interest_rate_bp: annual_rate_bp,
            days_remaining: None,
            daily_payment: 0,
        }
    }

    /// Creates a line of credit; the daily payment is fixed at 2% of the
    /// principal, at least $10.
    pub fn new_line_of_credit(id: u32, amount: u64, annual_rate_bp: u32) -> (r: Loan)
        ensures
            r == (Loan {
                id,
                loan_type: LoanType::LineOfCredit,
                principal: amount,
                balance: amount,
                interest_rate_bp: annual_rate_bp,
                days_remaining: None,
                daily_payment: (if amount / 50 > 1000 {
                    amount / 50
                } else {
                    1000u64
                }),
            }),
    {
        let daily_payment: u64 = if amount / 50 > 1000 {
            amount / 50
        } else {
            1000
        };
        Loan {
            id,
            loan_type: LoanType::LineOfCredit,
            principal: amount,
            balance: amount,
            interest_rate_bp: annual_rate_bp,
            days_remaining: None,
            daily_payment,
        }
    }

    /// Creates a term loan due in the given number of days.
    pub fn new_term_loan(id: u32, amount: u64, annual_rate_bp: u32, days: u32) -> (r: Loan)
        ensures
            r == (Loan {
                id,
                loan_type: LoanType::TermLoan,
                principal: amount,
                balance: amount,
                interest_rate_bp: annual_rate_bp,
                days_remaining: Some(days),
                daily_payment: 0u64,
            }),
    {
        Loan {
            id,
            loan_type: LoanType::TermLoan,
            principal: amount,
            balance: amount,
            interest_rate_bp: annual_rate_bp,
            days_remaining: Some(days),
            daily_payment: 0,
        }
    }

    /// Accrues one day's simple interest on the current balance,
    /// truncating fractional cents.
    pub fn accrue_interest(&mut self)
        requires
            old(self).wf(),
        ensures
            final(self).balance == spec_accrued(old(self).balance as int, old(self).interest_rate_bp as int),
            final(self).balance >= old(self).balance,
            *final(self) == (Loan { balance: final(self).balance, ..*old(self) }),
            final(self).wf(),
    {
        proof {
            assert(self.balance * self.interest_rate_bp <= MONEY_CAP * 10_000)
                by (nonlinear_arith)
                requires
                    self.balance <= MONEY_CAP,
                    self.interest_rate_bp <= 10_000,
            ;
            assert(self.balance * self.interest_rate_bp / 3_650_000 <= MONEY_CAP * 10_000 / 3_650_000);
        }
        let daily_interest: u64 = self.balance * self.interest_rate_bp as u64 / 3_650_000;
        let s: u64 = self.balance + daily_interest;
        self.balance = if s > MONEY_CAP {
            MONEY_CAP
        } else {
            s
        };
    }

    /// Pays down the loan; overpayment beyond the balance is capped, and
    /// the balance never goes negative.
    pub fn make_payment(&mut self, amount: u64) -> (paid: u64)
        ensures
            paid == if amount < old(self).balance {
                amount as int
            } else {
                old(self).balance as int
            },
            final(self).balance == old(self).balance - paid,
            *final(self) == (Loan { balance: final(self).balance, ..*old(self) }),
    {
        let actual: u64 = if amount < self.balance {
            amount
        } else {
            self.balance
        };
        self.balance = self.balance - actual;
        actual
    }

    /// Whether this term loan is due today.
    pub fn is_due(&self) -> (r: bool)
        ensures
            r == (self.days_remaining == Some(0u32)),
    {
        match self.days_remaining {
            Some(d) => d == 0,
            None => false,
        }
    }

    /// The days left if the loan comes due within the next three days.
    pub fn is_due_soon(&self) -> (r: Option<u32>)
        ensures
            r == self.spec_due_soon(),
    {
        match self.days_remaining {
            Some(days) => if days > 0 && days <= 3 {
                Some(days)
            } else {
                None
            },
            None => None,
        }
    }

    /// The due-soon window: one to three days remaining.
    pub open spec fn spec_due_soon(self) -> Option<u32> {
        match self.days_remaining {
            Some(days) => if 0 < days <= 3 {
                Some(days)
            } else {
                None
            },
            None => None,
        }
    }

    /// Counts a term loan one day closer to its due date, stopping at zero.
    pub fn decrement_days(&mut self)
        ensures
            final(self).days_remaining == match old(self).days_remaining {
                Some(d) => if d > 0 {
                    Some((d - 1) as u32)
                } else {
                    Some(d)
                },
                None => None::<u32>,
            },
            *final(self) == (Loan { days_remaining: final(self).days_remaining, ..*old(self) }),
    {
        if let Some(days) = self.days_remaining {
            if days > 0 {
                self.days_remaining = Some(days - 1);
            }
        }
    }

    /// Whether the loan is fully paid off.
    pub fn is_paid_off(&self) -> (r: bool)
        ensures
            r == (self.balance == 0),
    {
        self.balance == 0
    }

    /// The automatic payment a line of credit owes today: 2% of the current
    /// balance, at least $10, never more than the balance. Other loan types
    /// owe nothing automatically.
    pub open spec fn spec_auto_payment(self) -> int {
        if self.loan_type == LoanType::LineOfCredit {
            let want = if self.balance / 50 > 1000 {
                self.balance / 50
            } else {
                1000u64
            };
            if want > self.balance {
                self.balance as int
            } else {
                want as int
            }
        } else {
            0
        }
    }

    /// Returns today's automatic payment for a line of credit.
    pub fn get_auto_payment(&self) -> (r: u64)
        ensures
            r == self.spec_auto_payment(),
            r <= self.balance,
    {
        if self.loan_type == LoanType::LineOfCredit {
            let want: u64 = if self.balance / 50 > 1000 {
                self.balance / 50
            } else {
                1000
            };
            if want > self.balance {
                self.balance
            } else {
                want
            }
        } else {
            0
        }
    }

    /// The penalty for defaulting on a term loan: a quarter of the balance,
    /// truncated to whole cents.
    pub fn default_penalty(&self) -> (r: u64)
        ensures
            r == if self.loan_type == LoanType::TermLoan {
                self.balance as int / 4
            } else {
                0int
            },
    {
        if self.loan_type == LoanType::TermLoan {
            self.balance / 4
        } else {
            0
        }
    }
}

} // verus!
