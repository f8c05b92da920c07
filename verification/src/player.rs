//! The player: cash, the owned stores, factories and loans, the stock
//! portfolio, and the monotonic id counters for everything the player opens.

use vstd::prelude::*;
use crate::errors::CommandError;
use crate::factory::Factory;
use crate::loan::{Loan, MAX_TOTAL_DEBT};
use crate::money::{cap_amount, clamp_cash, credit_cash, MONEY_CAP, QTY_CAP};
use crate::stock::StockHolding;
use crate::store::Store;

verus! {

/// The combined balance of a loan ledger, in cents, before capping.
pub open spec fn spec_total_debt(s: Seq<Loan>) -> int
    decreases s.len(),
{
    if s.len() == 0 {
        0
    } else {
        spec_total_debt(s.drop_last()) + s.last().balance
    }
}

/// A ledger owes nothing less than zero.
pub proof fn lemma_total_debt_nonneg(s: Seq<Loan>)
    ensures
        spec_total_debt(s) >= 0,
    decreases s.len(),
{
    if s.len() > 0 {
        lemma_total_debt_nonneg(s.drop_last());
    }
}

/// The position of a loan in the ledger, or a negative value when absent.
pub open spec fn spec_loan_index(s: Seq<Loan>, loan_id: u32) -> int
    decreases s.len(),
{
    if s.len() == 0 {
        -1
    } else if s[0].id == loan_id {
        0
    } else {
        let r = spec_loan_index(s.drop_first(), loan_id);
        if r < 0 {
            -1
        } else {
            r + 1
        }
    }
}

/// The ledger with its paid-off loans purged.
pub open spec fn spec_active_loans(s: Seq<Loan>) -> Seq<Loan>
    decreases s.len(),
{
    if s.len() == 0 {
        Seq::empty()
    } else {
        let rest = spec_active_loans(s.drop_last());
        if s.last().balance == 0 {
            rest
        } else {
            rest.push(s.last())
        }
    }
}

/// Every loan that survives the purge was in the ledger.
pub proof fn lemma_active_loans_sub(s: Seq<Loan>)
    ensures
        forall|k: int|
            0 <= k < spec_active_loans(s).len() ==> s.contains(#[trigger] spec_active_loans(s)[k]),
    decreases s.len(),
{
    if s.len() > 0 {
        lemma_active_loans_sub(s.drop_last());
        assert forall|k: int| 0 <= k < spec_active_loans(s).len() implies s.contains(
            #[trigger] spec_active_loans(s)[k],
        ) by {
            let rest = spec_active_loans(s.drop_last());
            if k < rest.len() {
                assert(rest[k] == spec_active_loans(s)[k]);
                assert(s.drop_last().contains(rest[k]));
                let j = choose|j: int| 0 <= j < s.drop_last().len() && s.drop_last()[j] == rest[k];
                assert(s[j] == rest[k]);
            } else {
                assert(spec_active_loans(s)[k] == s.last());
            }
        }
    }
}

/// The daily running cost of everything the player owns, in cents.
pub open spec fn spec_store_expenses(s: Seq<Store>) -> int
    decreases s.len(),
{
    if s.len() == 0 {
        0
    } else {
        spec_store_expenses(s.drop_last()) + s.last().spec_daily_expenses()
    }
}

/// The daily running cost of a row of factories, in cents.
pub open spec fn spec_factory_expenses(s: Seq<Factory>) -> int
    decreases s.len(),
{
    if s.len() == 0 {
        0
    } else {
        spec_factory_expenses(s.drop_last()) + s.last().spec_daily_expenses()
    }
}

/// The player.
pub struct Player {
    /// Cash on hand in cents; it may go negative during a day's expenses,
    /// which is what bankruptcy looks for.
    pub cash: i64,
    pub stores: Vec<Store>,
    pub factories: Vec<Factory>,
    pub loans: Vec<Loan>,
    /// The stock positions, keyed by stock id.
    pub portfolio: Vec<StockHolding>,
    pub next_store_id: u32,
    pub next_factory_id: u32,
    pub next_loan_id: u32,
}

impl Player {
    /// A valid player: everything owned is valid, ids are unique and below
    /// their counters, and there is always at least one store.
    pub open spec fn wf(self) -> bool {
        &&& -(MONEY_CAP as int) <= self.cash <= MONEY_CAP
        &&& self.stores@.len() >= 1
        &&& forall|i: int| 0 <= i < self.stores@.len() ==> (#[trigger] self.stores@[i]).wf()
        &&& forall|i: int|
            0 <= i < self.stores@.len() ==> (#[trigger] self.stores@[i]).id < self.next_store_id
        &&& forall|i: int, j: int|
            0 <= i < j < self.stores@.len() ==> (#[trigger] self.stores@[i]).id != (
            #[trigger] self.stores@[j]).id
        &&& forall|i: int| 0 <= i < self.factories@.len() ==> (#[trigger] self.factories@[i]).wf()
        &&& forall|i: int|
            0 <= i < self.factories@.len() ==> (#[trigger] self.factories@[i]).id
                < self.next_factory_id
        &&& forall|i: int| 0 <= i < self.loans@.len() ==> (#[trigger] self.loans@[i]).wf()
        &&& forall|i: int|
            0 <= i < self.loans@.len() ==> (#[trigger] self.loans@[i]).id < self.next_loan_id
        &&& forall|i: int, j: int|
            0 <= i < j < self.loans@.len() ==> (#[trigger] self.loans@[i]).id != (
            #[trigger] self.loans@[j]).id
        &&& forall|i: int| 0 <= i < self.portfolio@.len() ==> (#[trigger] self.portfolio@[i]).wf()
        &&& forall|i: int, j: int|
            0 <= i < j < self.portfolio@.len() ==> (#[trigger] self.portfolio@[i]).stock_id != (
            #[trigger] self.portfolio@[j]).stock_id
    }

    /// Starts a player with one store and some cash.
    pub fn new(starting_cash: i64, store_name: &str) -> (r: Player)
        requires
            0 <= starting_cash <= MONEY_CAP,
        ensures
            r.wf(),
            r.cash == starting_cash,
            r.stores@.len() == 1,
            r.stores@[0].id == 1,
            r.stores@[0].name@ == store_name@,
            r.stores@[0].inventory@.len() == 0,
            r.stores@[0].daily_rent == crate::store::STORE_RENT,
            r.stores@[0].daily_customers == 50,
            r.stores@[0].employees@.len() == 0,
            r.factories@.len() == 0,
            r.loans@.len() == 0,
            r.portfolio@.len() == 0,
            r.next_store_id == 2,
            r.next_factory_id == 1,
            r.next_loan_id == 1,
    {
        let mut stores: Vec<Store> = Vec::new();
        stores.push(Store::new(1, store_name));
        Player {
            cash: starting_cash,
            stores,
            factories: Vec::new(),
            loans: Vec::new(),
            portfolio: Vec::new(),
            next_store_id: 2,
            next_factory_id: 1,
            next_loan_id: 1,
        }
    }

    /// Returns the store at an index.
    pub fn store_at(&self, index: usize) -> (r: &Store)
        requires
            index < self.stores@.len(),
        ensures
            *r == self.stores@[index as int],
    {
        &self.stores[index]
    }

    /// Returns the player's first store.
    pub fn store(&self) -> (r: &Store)
        requires
            self.wf(),
        ensures
            *r == self.stores@[0],
    {
        &self.stores[0]
    }

    /// Returns the factory at an index.
    pub fn factory_at(&self, index: usize) -> (r: &Factory)
        requires
            index < self.factories@.len(),
        ensures
            *r == self.factories@[index as int],
    {
        &self.factories[index]
    }

    /// Opens a new store under the next store id.
    pub fn add_store(&mut self, name: &str)
        requires
            old(self).wf(),
            old(self).next_store_id < u32::MAX,
        ensures
            final(self).wf(),
            final(self).stores@.len() == old(self).stores@.len() + 1,
            forall|i: int|
                0 <= i < old(self).stores@.len() ==> final(self).stores@[i]
                    == old(self).stores@[i],
            final(self).stores@.last().id == old(self).next_store_id,
            final(self).stores@.last().name@ == name@,
            final(self).stores@.last().inventory@.len() == 0,
            final(self).stores@.last().daily_rent == crate::store::STORE_RENT,
            final(self).stores@.last().daily_customers == 50,
            final(self).stores@.last().employees@.len() == 0,
            final(self).next_store_id == old(self).next_store_id + 1,
            final(self).cash == old(self).cash,
            final(self).factories == old(self).factories,
            final(self).loans == old(self).loans,
            final(self).portfolio == old(self).portfolio,
            final(self).next_factory_id == old(self).next_factory_id,
            final(self).next_loan_id == old(self).next_loan_id,
    {
        let store = Store::new(self.next_store_id, name);
        self.stores.push(store);
        self.next_store_id = self.next_store_id + 1;
    }

    /// Opens a new factory under the next factory id.
    pub fn add_factory(&mut self, name: &str)
        requires
            old(self).wf(),
            old(self).next_factory_id < u32::MAX,
        ensures
            final(self).wf(),
            final(self).factories@.len() == old(self).factories@.len() + 1,
            forall|i: int|
                0 <= i < old(self).factories@.len() ==> final(self).factories@[i]
                    == old(self).factories@[i],
            final(self).factories@.last().id == old(self).next_factory_id,
            final(self).factories@.last().name@ == name@,
            final(self).factories@.last().production_queue@.len() == 0,
            final(self).factories@.last().workers@.len() == 0,
            final(self).factories@.last().connected_stores@.len() == 0,
            !final(self).factories@.last().auto_transfer,
            final(self).next_factory_id == old(self).next_factory_id + 1,
            final(self).cash == old(self).cash,
            final(self).stores == old(self).stores,
            final(self).loans == old(self).loans,
            final(self).portfolio == old(self).portfolio,
            final(self).next_store_id == old(self).next_store_id,
            final(self).next_loan_id == old(self).next_loan_id,
    {
        let factory = Factory::new(self.next_factory_id, name);
        self.factories.push(factory);
        self.next_factory_id = self.next_factory_id + 1;
    }

    /// Spends cash if there is enough; never overdraws.
    pub fn spend(&mut self, amount: u64) -> (r: bool)
        requires
            old(self).wf(),
            amount <= MONEY_CAP,
        ensures
            final(self).wf(),
            r == (old(self).cash >= amount),
            r ==> *final(self) == (Player { cash: (old(self).cash - amount) as i64, ..*old(self) }),
            !r ==> *final(self) == *old(self),
    {
        if self.cash >= 0 && self.cash >= amount as i64 {
            self.cash = self.cash - amount as i64;
            true
        } else {
            false
        }
    }

    /// Adds cash, saturating at the cap.
    pub fn earn(&mut self, amount: u64)
        requires
            old(self).wf(),
            amount <= MONEY_CAP,
        ensures
            final(self).wf(),
            *final(self) == (Player {
                cash: clamp_cash(old(self).cash + amount) as i64,
                ..*old(self)
            }),
    {
        self.cash = credit_cash(self.cash, amount);
    }

    /// Returns the combined balance of every loan, capped.
    pub fn total_debt(&self) -> (r: u64)
        requires
            self.wf(),
        ensures
            r == cap_amount(spec_total_debt(self.loans@)),
    {
        let mut total: u64 = 0;
        let mut i: usize = 0;
        while i < self.loans.len()
            invariant
                i <= self.loans@.len(),
                self.wf(),
                total == cap_amount(spec_total_debt(self.loans@.take(i as int))),
                spec_total_debt(self.loans@.take(i as int)) >= 0,
            decreases self.loans@.len() - i,
        {
            proof {
                assert(self.loans@.take(i as int + 1).drop_last() =~= self.loans@.take(i as int));
                assert(self.loans@.take(i as int + 1).last() == self.loans@[i as int]);
            }
            total = crate::money::add_amount(total, self.loans[i].balance);
            i = i + 1;
        }
        proof {
            assert(self.loans@.take(self.loans@.len() as int) =~= self.loans@);
        }
        total
    }

    /// Whether a further loan of this size would stay within the aggregate
    /// debt limit.
    pub fn can_borrow(&self, amount: u64) -> (r: bool)
        requires
            self.wf(),
        ensures
            r == (spec_total_debt(self.loans@) + amount <= MAX_TOTAL_DEBT),
    {
        let debt: u64 = self.total_debt();
        proof {
            lemma_total_debt_nonneg(self.loans@);
        }
        debt as u128 + amount as u128 <= MAX_TOTAL_DEBT as u128
    }

    /// Returns how much more the player may borrow in total.
    pub fn max_borrowable(&self) -> (r: u64)
        requires
            self.wf(),
        ensures
            r == if spec_total_debt(self.loans@) >= MAX_TOTAL_DEBT {
                0int
            } else {
                MAX_TOTAL_DEBT - spec_total_debt(self.loans@)
            },
    {
        let debt: u64 = self.total_debt();
        proof {
            lemma_total_debt_nonneg(self.loans@);
        }
        if debt >= MAX_TOTAL_DEBT {
            0
        } else {
            MAX_TOTAL_DEBT - debt
        }
    }

    /// Books a new loan under the next loan id and receives the principal
    /// in cash.
    pub fn add_loan(&mut self, loan: Loan)
        requires
            old(self).wf(),
            loan.wf(),
            old(self).next_loan_id < u32::MAX,
        ensures
            final(self).wf(),
            final(self).loans@ == old(self).loans@.push(
                Loan { id: old(self).next_loan_id, ..loan },
            ),
            final(self).cash == clamp_cash(old(self).cash + loan.principal),
            final(self).next_loan_id == old(self).next_loan_id + 1,
            final(self).stores == old(self).stores,
            final(self).factories == old(self).factories,
            final(self).portfolio == old(self).portfolio,
            final(self).next_store_id == old(self).next_store_id,
            final(self).next_factory_id == old(self).next_factory_id,
    {
        let mut loan = loan;
        loan.id = self.next_loan_id;
        self.next_loan_id = self.next_loan_id + 1;
        self.cash = credit_cash(self.cash, loan.principal);
        self.loans.push(loan);
    }

    /// Finds the ledger position of a loan.
    pub fn find_loan(&self, loan_id: u32) -> (r: Option<usize>)
        requires
            self.wf(),
        ensures
            match r {
                Some(i) => i == spec_loan_index(self.loans@, loan_id) && i < self.loans@.len()
                    && self.loans@[i as int].id == loan_id,
                None => spec_loan_index(self.loans@, loan_id) < 0,
            },
    {
        let ghost s = self.loans@;
        proof {
            assert(s.skip(0) =~= s);
        }
        let mut i: usize = 0;
        while i < self.loans.len()
            invariant
                i <= s.len(),
                s == self.loans@,
                forall|j: int| 0 <= j < i ==> (#[trigger] s[j]).id != loan_id,
                spec_loan_index(s, loan_id) == if spec_loan_index(s.skip(i as int), loan_id) < 0 {
                    -1
                } else {
                    i + spec_loan_index(s.skip(i as int), loan_id)
                },
            decreases s.len() - i,
        {
            proof {
                assert(s.skip(i as int)[0] == s[i as int]);
                assert(s.skip(i as int).drop_first() =~= s.skip(i as int + 1));
            }
            if self.loans[i].id == loan_id {
                return Some(i);
            }
            i = i + 1;
        }
        proof {
            assert(s.skip(i as int).len() == 0);
        }
        None
    }

    /// Returns the loan with an id.
    pub fn get_loan(&self, loan_id: u32) -> (r: Option<&Loan>)
        requires
            self.wf(),
        ensures
            match r {
                Some(l) => spec_loan_index(self.loans@, loan_id) >= 0 && *l == self.loans@[
                    spec_loan_index(self.loans@, loan_id)
                ] && l.id == loan_id,
                None => spec_loan_index(self.loans@, loan_id) < 0,
            },
    {
        match self.find_loan(loan_id) {
            Some(i) => Some(&self.loans[i]),
            None => None,
        }
    }

    /// Pays down the loan at a ledger position with up to the given amount,
    /// limited by the cash on hand; never overdraws and never overpays.
    pub fn pay_loan_at(&mut self, index: usize, amount: u64) -> (paid: u64)
        requires
            old(self).wf(),
            index < old(self).loans@.len(),
        ensures
            final(self).wf(),
            ({
                let lo = old(self).loans@[index as int];
                let avail = if old(self).cash >= 0 {
                    old(self).cash as int
                } else {
                    0
                };
                let payment = if amount as int <= avail {
                    amount as int
                } else {
                    avail
                };
                &&& paid == if payment <= lo.balance {
                    payment
                } else {
                    lo.balance as int
                }
                &&& final(self).loans@ == old(self).loans@.update(
                    index as int,
                    Loan { balance: (lo.balance - paid) as u64, ..lo },
                )
                &&& final(self).cash == old(self).cash - paid
                &&& final(self).stores == old(self).stores
                &&& final(self).factories == old(self).factories
                &&& final(self).portfolio == old(self).portfolio
                &&& final(self).next_store_id == old(self).next_store_id
                &&& final(self).next_factory_id == old(self).next_factory_id
                &&& final(self).next_loan_id == old(self).next_loan_id
            }),
    {
        let avail: u64 = if self.cash >= 0 {
            if self.cash as u64 <= MONEY_CAP {
                self.cash as u64
            } else {
                MONEY_CAP
            }
        } else {
            0
        };
        let payment: u64 = if amount <= avail {
            amount
        } else {
            avail
        };
        let loan = &mut self.loans[index];

        let paid: u64 = loan.make_payment(payment);
        self.cash = self.cash - paid as i64;
        proof {
            assert(final(loan).balance == old(self).loans@[index as int].balance - paid);
            assert(self.loans@ =~= old(self).loans@.update(
                index as int,
                Loan {
                    balance: (old(self).loans@[index as int].balance - paid) as u64,
                    ..old(self).loans@[index as int]
                },
            ));
        }
        paid
    }

    /// Pays down the loan with an id, limited by the cash on hand. Returns
    /// what was paid, or nothing when no such loan exists.
    pub fn make_loan_payment(&mut self, loan_id: u32, amount: u64) -> (r: Option<u64>)
        requires
            old(self).wf(),
        ensures
            final(self).wf(),
            ({
                let idx = spec_loan_index(old(self).loans@, loan_id);
                match r {
                    Some(paid) => {
                        let lo = old(self).loans@[idx];
                        let avail = if old(self).cash >= 0 {
                            old(self).cash as int
                        } else {
                            0
                        };
                        let payment = if amount as int <= avail {
                            amount as int
                        } else {
                            avail
                        };
                        &&& idx >= 0
                        &&& paid == if payment <= lo.balance {
                            payment
                        } else {
                            lo.balance as int
                        }
                        &&& final(self).loans@ == old(self).loans@.update(
                            idx,
                            Loan { balance: (lo.balance - paid) as u64, ..lo },
                        )
                        &&& final(self).cash == old(self).cash - paid
                        &&& final(self).stores == old(self).stores
                        &&& final(self).factories == old(self).factories
                        &&& final(self).portfolio == old(self).portfolio
                    },
                    None => idx < 0 && *final(self) == *old(self),
                }
            }),
    {
        match self.find_loan(loan_id) {
            Some(i) => Some(self.pay_loan_at(i, amount)),
            None => None,
        }
    }

    /// Purges every fully paid-off loan from the ledger.
    pub fn cleanup_loans(&mut self)
        requires
            old(self).wf(),
        ensures
            final(self).wf(),
            final(self).loans@ == spec_active_loans(old(self).loans@),
            final(self).cash == old(self).cash,
            final(self).stores == old(self).stores,
            final(self).factories == old(self).factories,
            final(self).portfolio == old(self).portfolio,
            final(self).next_store_id == old(self).next_store_id,
            final(self).next_factory_id == old(self).next_factory_id,
            final(self).next_loan_id == old(self).next_loan_id,
    {
        let ghost s0 = self.loans@;
        let mut kept: Vec<Loan> = Vec::new();
        let mut i: usize = 0;
        while i < self.loans.len()
            invariant
                i <= s0.len(),
                s0 == self.loans@,
                old(self).wf(),
                s0 == old(self).loans@,
                kept@ == spec_active_loans(s0.take(i as int)),
                forall|a: int| 0 <= a < kept@.len() ==> (#[trigger] kept@[a]).wf(),
                forall|a: int| 0 <= a < kept@.len() ==> (#[trigger] kept@[a]).id < old(self).next_loan_id,
                forall|a: int, b: int|
                    0 <= a < b < kept@.len() ==> (#[trigger] kept@[a]).id != (
                    #[trigger] kept@[b]).id,
            decreases s0.len() - i,
        {
            proof {
                assert(s0.take(i as int + 1).drop_last() =~= s0.take(i as int));
                assert(s0.take(i as int + 1).last() == s0[i as int]);
                lemma_active_loans_sub(s0.take(i as int));
            }
            if self.loans[i].balance > 0 {
                proof {
                    assert forall|a: int| 0 <= a < kept@.len() implies (#[trigger] kept@[a]).id
                        != s0[i as int].id by {
                        assert(s0.take(i as int).contains(kept@[a]));
                        let j = choose|j: int|
                            0 <= j < s0.take(i as int).len() && s0.take(i as int)[j] == kept@[a];
                        assert(s0[j] == kept@[a]);
                    }
                }
                let l = clone_loan_at(&self.loans, i);
                kept.push(l);
            }
            i = i + 1;
        }
        proof {
            assert(s0.take(s0.len() as int) =~= s0);
        }
        self.loans = kept;
    }

    /// Lists the term loans due within three days, as id and days pairs.
    pub fn loans_due_soon(&self) -> (r: Vec<(u32, u32)>)
        requires
            self.wf(),
        ensures
            r@ == spec_due_soon_list(self.loans@),
    {
        let mut out: Vec<(u32, u32)> = Vec::new();
        let mut i: usize = 0;
        while i < self.loans.len()
            invariant
                i <= self.loans@.len(),
                self.wf(),
                out@ == spec_due_soon_list(self.loans@.take(i as int)),
            decreases self.loans@.len() - i,
        {
            proof {
                assert(self.loans@.take(i as int + 1).drop_last() =~= self.loans@.take(i as int));
                assert(self.loans@.take(i as int + 1).last() == self.loans@[i as int]);
            }
            match self.loans[i].is_due_soon() {
                Some(days) => {
                    out.push((self.loans[i].id, days));
                },
                None => {},
            }
            i = i + 1;
        }
        proof {
            assert(self.loans@.take(self.loans@.len() as int) =~= self.loans@);
        }
        out
    }

    /// Returns the id the next loan will get.
    pub fn peek_next_loan_id(&self) -> (r: u32)
        ensures
            r == self.next_loan_id,
    {
        self.next_loan_id
    }
}

/// The player's position in a stock; nothing when none is held.
pub open spec fn spec_holding(s: Seq<StockHolding>, stock_id: u32) -> Option<StockHolding>
    decreases s.len(),
{
    if s.len() == 0 {
        None
    } else if s[0].stock_id == stock_id {
        Some(s[0])
    } else {
        spec_holding(s.drop_first(), stock_id)
    }
}

/// A portfolio holds a stock exactly when some slot holds it.
pub proof fn lemma_holding_has_index(s: Seq<StockHolding>, stock_id: u32)
    ensures
        spec_holding(s, stock_id) is Some <==> exists|i: int|
            0 <= i < s.len() && (#[trigger] s[i]).stock_id == stock_id,
    decreases s.len(),
{
    if s.len() > 0 {
        lemma_holding_has_index(s.drop_first(), stock_id);
        if s[0].stock_id == stock_id {
            assert(s[0].stock_id == stock_id && 0 < s.len());
        } else {
            if spec_holding(s, stock_id) is Some {
                let i = choose|i: int|
                    0 <= i < s.drop_first().len() && (#[trigger] s.drop_first()[i]).stock_id
                        == stock_id;
                assert(s[i + 1].stock_id == stock_id);
            }
            if exists|i: int| 0 <= i < s.len() && (#[trigger] s[i]).stock_id == stock_id {
                let i = choose|i: int|
                    0 <= i < s.len() && (#[trigger] s[i]).stock_id == stock_id;
                assert(s.drop_first()[i - 1].stock_id == stock_id);
            }
        }
    }
}

/// In a unique-key portfolio, the slot at any matching index is the
/// position.
pub proof fn lemma_holding_at_index(s: Seq<StockHolding>, i: int, stock_id: u32)
    requires
        forall|a: int, b: int|
            0 <= a < b < s.len() ==> (#[trigger] s[a]).stock_id != (#[trigger] s[b]).stock_id,
        0 <= i < s.len(),
        s[i].stock_id == stock_id,
    ensures
        spec_holding(s, stock_id) == Some(s[i]),
    decreases s.len(),
{
    if i > 0 {
        assert(forall|a: int, b: int|
            0 <= a < b < s.drop_first().len() ==> (#[trigger] s.drop_first()[a]).stock_id != (
            #[trigger] s.drop_first()[b]).stock_id) by {
            assert(forall|a: int, b: int|
                0 <= a < b < s.drop_first().len() ==> s.drop_first()[a] == s[a + 1]
                    && s.drop_first()[b] == s[b + 1]);
        }
        assert(s.drop_first()[i - 1] == s[i]);
        lemma_holding_at_index(s.drop_first(), i - 1, stock_id);
    }
}

/// Replacing one slot with a position in the same stock changes that stock
/// alone.
pub proof fn lemma_holding_update(s: Seq<StockHolding>, i: int, h: StockHolding, stock_id: u32)
    requires
        forall|a: int, b: int|
            0 <= a < b < s.len() ==> (#[trigger] s[a]).stock_id != (#[trigger] s[b]).stock_id,
        0 <= i < s.len(),
        h.stock_id == s[i].stock_id,
    ensures
        spec_holding(s.update(i, h), stock_id) == if stock_id == h.stock_id {
            Some(h)
        } else {
            spec_holding(s, stock_id)
        },
    decreases s.len(),
{
    let t = s.update(i, h);
    if i == 0 {
        if s[0].stock_id != stock_id {
            assert(t.drop_first() =~= s.drop_first());
        }
    } else {
        assert(t[0] == s[0]);
        assert(forall|a: int, b: int|
            0 <= a < b < s.drop_first().len() ==> (#[trigger] s.drop_first()[a]).stock_id != (
            #[trigger] s.drop_first()[b]).stock_id) by {
            assert(forall|a: int, b: int|
                0 <= a < b < s.drop_first().len() ==> s.drop_first()[a] == s[a + 1]
                    && s.drop_first()[b] == s[b + 1]);
        }
        assert(t.drop_first() =~= s.drop_first().update(i - 1, h));
        assert(s.drop_first()[i - 1] == s[i]);
        lemma_holding_update(s.drop_first(), i - 1, h, stock_id);
    }
}

/// Appending a position in a new stock changes that stock alone.
pub proof fn lemma_holding_push(s: Seq<StockHolding>, h: StockHolding, stock_id: u32)
    ensures
        spec_holding(s.push(h), stock_id) == if spec_holding(s, stock_id) is Some {
            spec_holding(s, stock_id)
        } else if h.stock_id == stock_id {
            Some(h)
        } else {
            None::<StockHolding>
        },
    decreases s.len(),
{
    let t = s.push(h);
    assert(t.len() == s.len() + 1);
    if s.len() == 0 {
        assert(t[0] == h);
        assert(t.drop_first() =~= Seq::<StockHolding>::empty());
        if h.stock_id != stock_id {
            assert(spec_holding(t, stock_id) == spec_holding(t.drop_first(), stock_id));
        }
    } else {
        assert(t[0] == s[0]);
        assert(t.drop_first() =~= s.drop_first().push(h));
        lemma_holding_push(s.drop_first(), h, stock_id);
    }
}

/// Removing one slot empties that stock's position and changes nothing
/// else.
pub proof fn lemma_holding_remove(s: Seq<StockHolding>, i: int, stock_id: u32)
    requires
        forall|a: int, b: int|
            0 <= a < b < s.len() ==> (#[trigger] s[a]).stock_id != (#[trigger] s[b]).stock_id,
        0 <= i < s.len(),
    ensures
        spec_holding(s.remove(i), stock_id) == if stock_id == s[i].stock_id {
            None::<StockHolding>
        } else {
            spec_holding(s, stock_id)
        },
    decreases s.len(),
{
    let t = s.remove(i);
    assert(forall|a: int, b: int|
        0 <= a < b < s.drop_first().len() ==> (#[trigger] s.drop_first()[a]).stock_id != (
        #[trigger] s.drop_first()[b]).stock_id) by {
        assert(forall|a: int, b: int|
            0 <= a < b < s.drop_first().len() ==> s.drop_first()[a] == s[a + 1]
                && s.drop_first()[b] == s[b + 1]);
    }
    if i == 0 {
        assert(t =~= s.drop_first());
        if stock_id == s[0].stock_id {
            lemma_holding_has_index(s.drop_first(), stock_id);
            if spec_holding(s.drop_first(), stock_id) is Some {
                let j = choose|j: int|
                    0 <= j < s.drop_first().len() && (#[trigger] s.drop_first()[j]).stock_id
                        == stock_id;
                assert(s[j + 1].stock_id == stock_id);
                assert(false);
            }
        }
    } else {
        assert(t[0] == s[0]);
        assert(t.drop_first() =~= s.drop_first().remove(i - 1));
        assert(s.drop_first()[i - 1] == s[i]);
        lemma_holding_remove(s.drop_first(), i - 1, stock_id);
    }
}

/// The cost basis of a portfolio: average price times shares, summed.
pub open spec fn spec_portfolio_cost(s: Seq<StockHolding>) -> int
    decreases s.len(),
{
    if s.len() == 0 {
        0
    } else {
        spec_portfolio_cost(s.drop_last()) + s.last().avg_purchase_price * s.last().shares
    }
}

/// All dividends a portfolio has earned, summed.
pub open spec fn spec_dividends_earned(s: Seq<StockHolding>) -> int
    decreases s.len(),
{
    if s.len() == 0 {
        0
    } else {
        spec_dividends_earned(s.drop_last()) + s.last().total_dividends_earned
    }
}

/// The id and days-remaining pairs of the loans due within three days.
pub open spec fn spec_due_soon_list(s: Seq<Loan>) -> Seq<(u32, u32)>
    decreases s.len(),
{
    if s.len() == 0 {
        Seq::empty()
    } else {
        let rest = spec_due_soon_list(s.drop_last());
        match s.last().spec_due_soon() {
            Some(days) => rest.push((s.last().id, days)),
            None => rest,
        }
    }
}

/// The retail value of everything in every store, in cents.
pub open spec fn spec_stores_value(s: Seq<Store>) -> int
    decreases s.len(),
{
    if s.len() == 0 {
        0
    } else {
        spec_stores_value(s.drop_last()) + crate::store::spec_inventory_value(
            s.last().inventory@,
        )
    }
}

/// The dividend one position earns today: its stock's per-share dividend
/// times its shares, capped; nothing for a delisted stock.
pub open spec fn spec_dividend_amount(h: StockHolding, stocks: Seq<crate::stock::Stock>) -> int {
    match crate::stock::spec_get_stock(stocks, h.stock_id) {
        Some(st) => cap_amount(st.spec_daily_dividend() * h.shares),
        None => 0,
    }
}

/// The dividends a whole portfolio earns today, before capping.
pub open spec fn spec_day_dividends(s: Seq<StockHolding>, stocks: Seq<crate::stock::Stock>) -> int
    decreases s.len(),
{
    if s.len() == 0 {
        0
    } else {
        spec_day_dividends(s.drop_last(), stocks) + spec_dividend_amount(s.last(), stocks)
    }
}

/// The value of a portfolio at today's prices: each position's capped
/// value, summed; a delisted stock counts nothing.
pub open spec fn spec_portfolio_value(s: Seq<StockHolding>, stocks: Seq<crate::stock::Stock>) -> int
    decreases s.len(),
{
    if s.len() == 0 {
        0
    } else {
        spec_portfolio_value(s.drop_last(), stocks) + (
        match crate::stock::spec_get_stock(stocks, s.last().stock_id) {
            Some(st) => cap_amount(st.price * s.last().shares),
            None => 0,
        })
    }
}

/// The unrealized gain or loss of a portfolio at today's prices, over
/// capped values.
pub open spec fn spec_portfolio_gain(s: Seq<StockHolding>, stocks: Seq<crate::stock::Stock>) -> int
    decreases s.len(),
{
    if s.len() == 0 {
        0
    } else {
        spec_portfolio_gain(s.drop_last(), stocks) + (
        match crate::stock::spec_get_stock(stocks, s.last().stock_id) {
            Some(st) => cap_amount(st.price * s.last().shares) - cap_amount(
                s.last().avg_purchase_price * s.last().shares,
            ),
            None => 0 - cap_amount(s.last().avg_purchase_price * s.last().shares),
        })
    }
}

impl Player {
    /// Finds the portfolio slot of a stock.
    pub fn find_holding(&self, stock_id: u32) -> (r: Option<usize>)
        requires
            self.wf(),
        ensures
            match r {
                Some(i) => i < self.portfolio@.len() && self.portfolio@[i as int].stock_id
                    == stock_id && spec_holding(self.portfolio@, stock_id) == Some(
                    self.portfolio@[i as int],
                ),
                None => spec_holding(self.portfolio@, stock_id) is None,
            },
    {
        let mut i: usize = 0;
        while i < self.portfolio.len()
            invariant
                i <= self.portfolio@.len(),
                self.wf(),
                forall|j: int| 0 <= j < i ==> (#[trigger] self.portfolio@[j]).stock_id != stock_id,
            decreases self.portfolio@.len() - i,
        {
            if self.portfolio[i].stock_id == stock_id {
                proof {
                    lemma_holding_at_index(self.portfolio@, i as int, stock_id);
                }
                return Some(i);
            }
            i = i + 1;
        }
        proof {
            lemma_holding_has_index(self.portfolio@, stock_id);
            if spec_holding(self.portfolio@, stock_id) is Some {
                let j = choose|j: int|
                    0 <= j < self.portfolio@.len() && (#[trigger] self.portfolio@[j]).stock_id
                        == stock_id;
                assert(false);
            }
        }
        None
    }

    /// Returns the position held in a stock.
    pub fn get_holding(&self, stock_id: u32) -> (r: Option<&StockHolding>)
        requires
            self.wf(),
        ensures
            match r {
                Some(h) => spec_holding(self.portfolio@, stock_id) == Some(*h),
                None => spec_holding(self.portfolio@, stock_id) is None,
            },
    {
        match self.find_holding(stock_id) {
            Some(i) => Some(&self.portfolio[i]),
            None => None,
        }
    }

    /// Buys shares at a price: debits the full cost and grows or opens the
    /// position, re-averaging its purchase price.
    pub fn buy_stock(&mut self, stock_id: u32, shares: u64, price: u64) -> (r: Result<
        (),
        CommandError,
    >)
        requires
            old(self).wf(),
            price <= MONEY_CAP,
        ensures
            final(self).wf(),
            ({
                let held = spec_holding(old(self).portfolio@, stock_id);
                let held_shares = match held {
                    Some(h) => h.shares as int,
                    None => 0,
                };
                let cost = price * shares;
                match r {
                    Err(e) => {
                        &&& *final(self) == *old(self)
                        &&& (e == CommandError::QuantityZero && shares == 0 || e
                            == CommandError::StorageLimitExceeded && shares > 0 && held_shares
                            + shares > QTY_CAP || e == (CommandError::NotEnoughCash {
                            needed: cap_amount(cost) as u64,
                            have: old(self).cash,
                        }) && shares > 0 && held_shares + shares <= QTY_CAP && cost > old(
                            self,
                        ).cash)
                    },
                    Ok(_) => {
                        &&& shares > 0
                        &&& held_shares + shares <= QTY_CAP
                        &&& cost <= old(self).cash
                        &&& final(self).cash == old(self).cash - cost
                        &&& spec_holding(final(self).portfolio@, stock_id) == Some(
                            match held {
                                Some(h) => StockHolding {
                                    stock_id,
                                    shares: (h.shares + shares) as u64,
                                    avg_purchase_price: cap_amount(
                                        (h.avg_purchase_price * h.shares + price * shares) / (
                                        h.shares + shares) as int,
                                    ) as u64,
                                    total_dividends_earned: h.total_dividends_earned,
                                },
                                None => StockHolding {
                                    stock_id,
                                    shares,
                                    avg_purchase_price: price,
                                    total_dividends_earned: 0u64,
                                },
                            },
                        )
                        &&& forall|p: u32|
                            p != stock_id ==> #[trigger] spec_holding(final(self).portfolio@, p)
                                == spec_holding(old(self).portfolio@, p)
                        &&& final(self).stores == old(self).stores
                        &&& final(self).factories == old(self).factories
                        &&& final(self).loans == old(self).loans
                    },
                }
            }),
    {
        if shares == 0 {
            return Err(CommandError::QuantityZero);
        }
        let ghost p0 = self.portfolio@;
        let idx = self.find_holding(stock_id);
        let held: u64 = match idx {
            Some(i) => self.portfolio[i].shares,
            None => 0,
        };
        if shares > QTY_CAP || held > QTY_CAP - shares {
            return Err(CommandError::StorageLimitExceeded);
        }
        proof {
            assert(0 <= price * shares <= u64::MAX * u64::MAX) by (nonlinear_arith)
                requires
                    price <= u64::MAX,
                    shares <= u64::MAX,
            ;
        }
        let cost128: u128 = price as u128 * shares as u128;
        if self.cash < 0 || cost128 > self.cash as u128 {
            let needed: u64 = crate::money::mul_price_qty(price, shares);
            return Err(CommandError::NotEnoughCash { needed, have: self.cash });
        }
        self.cash = self.cash - cost128 as i64;
        match idx {
            Some(i) => {
                let h = &mut self.portfolio[i];

                h.add_shares(shares, price);
                proof {
                    let h1 = self.portfolio@[i as int];
                    lemma_holding_update(p0, i as int, h1, stock_id);
                    assert(self.portfolio@ =~= p0.update(i as int, h1));
                    assert forall|p: u32| p != stock_id implies #[trigger] spec_holding(
                        self.portfolio@,
                        p,
                    ) == spec_holding(p0, p) by {
                        lemma_holding_update(p0, i as int, self.portfolio@[i as int], p);
                    }
                }
            },
            None => {
                let h = StockHolding::new(stock_id, shares, price);
                proof {
                    lemma_holding_has_index(p0, stock_id);
                }
                self.portfolio.push(h);
                proof {
                    lemma_holding_push(p0, h, stock_id);
                    assert forall|p: u32| p != stock_id implies #[trigger] spec_holding(
                        self.portfolio@,
                        p,
                    ) == spec_holding(p0, p) by {
                        lemma_holding_push(p0, h, p);
                    }
                    assert forall|a: int, b: int|
                        0 <= a < b < self.portfolio@.len() implies (
                    #[trigger] self.portfolio@[a]).stock_id != (
                    #[trigger] self.portfolio@[b]).stock_id by {
                        if b == p0.len() {
                            assert(self.portfolio@[a] == p0[a]);
                        } else {
                            assert(self.portfolio@[a] == p0[a]);
                            assert(self.portfolio@[b] == p0[b]);
                        }
                    }
                }
            },
        }
        Ok(())
    }

    /// Sells shares at a price: credits the proceeds and shrinks the
    /// position, closing it when it empties.
    pub fn sell_stock(&mut self, stock_id: u32, shares: u64, price: u64) -> (r: Result<
        u64,
        CommandError,
    >)
        requires
            old(self).wf(),
            price <= MONEY_CAP,
        ensures
            final(self).wf(),
            ({
                let held = spec_holding(old(self).portfolio@, stock_id);
                match r {
                    Err(e) => {
                        &&& *final(self) == *old(self)
                        &&& (e == CommandError::NoHolding && held is None || (held matches Some(h)
                            && e == (CommandError::NotEnoughShares {
                            owned: h.shares,
                            requested: shares,
                        }) && shares > h.shares))
                    },
                    Ok(proceeds) => {
                        let h = held.unwrap();
                        &&& held is Some
                        &&& shares <= h.shares
                        &&& proceeds == cap_amount(price * shares)
                        &&& final(self).cash == clamp_cash(old(self).cash + proceeds)
                        &&& spec_holding(final(self).portfolio@, stock_id) == if h.shares == shares {
                            None::<StockHolding>
                        } else {
                            Some(StockHolding { shares: (h.shares - shares) as u64, ..h })
                        }
                        &&& forall|p: u32|
                            p != stock_id ==> #[trigger] spec_holding(final(self).portfolio@, p)
                                == spec_holding(old(self).portfolio@, p)
                        &&& final(self).stores == old(self).stores
                        &&& final(self).factories == old(self).factories
                        &&& final(self).loans == old(self).loans
                    },
                }
            }),
    {
        let ghost p0 = self.portfolio@;
        let idx = match self.find_holding(stock_id) {
            Some(i) => i,
            None => {
                return Err(CommandError::NoHolding);
            },
        };
        let owned: u64 = self.portfolio[idx].shares;
        if shares > owned {
            return Err(CommandError::NotEnoughShares { owned, requested: shares });
        }
        let h = StockHolding {
            stock_id,
            shares: owned - shares,
            avg_purchase_price: self.portfolio[idx].avg_purchase_price,
            total_dividends_earned: self.portfolio[idx].total_dividends_earned,
        };
        let proceeds: u64 = crate::money::mul_price_qty(price, shares);
        self.cash = credit_cash(self.cash, proceeds);
        if owned == shares {
            proof {
                lemma_holding_remove(p0, idx as int, stock_id);
            }
            self.portfolio.remove(idx);
            proof {
                assert(self.portfolio@ =~= p0.remove(idx as int));
                assert forall|p: u32| p != stock_id implies #[trigger] spec_holding(
                    self.portfolio@,
                    p,
                ) == spec_holding(p0, p) by {
                    lemma_holding_remove(p0, idx as int, p);
                }
                assert forall|a: int, b: int|
                    0 <= a < b < self.portfolio@.len() implies (
                #[trigger] self.portfolio@[a]).stock_id != (
                #[trigger] self.portfolio@[b]).stock_id by {
                    let a0 = if a < idx {
                        a
                    } else {
                        a + 1
                    };
                    let b0 = if b < idx {
                        b
                    } else {
                        b + 1
                    };
                    assert(self.portfolio@[a] == p0[a0]);
                    assert(self.portfolio@[b] == p0[b0]);
                }
            }
        } else {
            self.portfolio.set(idx, h);
            proof {
                lemma_holding_update(p0, idx as int, h, stock_id);
                assert forall|p: u32| p != stock_id implies #[trigger] spec_holding(
                    self.portfolio@,
                    p,
                ) == spec_holding(p0, p) by {
                    lemma_holding_update(p0, idx as int, h, p);
                }
            }
        }
        Ok(proceeds)
    }

    /// Pays today's dividends into every position's accumulator and returns
    /// the day's total, capped.
    pub fn collect_dividends(&mut self, market: &crate::stock::StockMarket) -> (r: u64)
        requires
            old(self).wf(),
            market.wf(),
        ensures
            final(self).wf(),
            final(self).portfolio@.len() == old(self).portfolio@.len(),
            forall|i: int|
                0 <= i < old(self).portfolio@.len() ==> (#[trigger] final(self).portfolio@[i])
                    == (StockHolding {
                    total_dividends_earned: cap_amount(
                        old(self).portfolio@[i].total_dividends_earned + spec_dividend_amount(
                            old(self).portfolio@[i],
                            market.stocks@,
                        ),
                    ) as u64,
                    ..old(self).portfolio@[i]
                }),
            r == cap_amount(spec_day_dividends(old(self).portfolio@, market.stocks@)),
            final(self).cash == old(self).cash,
            final(self).stores == old(self).stores,
            final(self).factories == old(self).factories,
            final(self).loans == old(self).loans,
            final(self).next_store_id == old(self).next_store_id,
            final(self).next_factory_id == old(self).next_factory_id,
            final(self).next_loan_id == old(self).next_loan_id,
    {
        let ghost p0 = self.portfolio@;
        let mut total: u64 = 0;
        let mut i: usize = 0;
        while i < self.portfolio.len()
            invariant
                i <= p0.len(),
                old(self).wf(),
                market.wf(),
                p0 == old(self).portfolio@,
                self.portfolio@.len() == p0.len(),
                forall|k: int| i <= k < p0.len() ==> #[trigger] self.portfolio@[k] == p0[k],
                forall|k: int|
                    0 <= k < i ==> (#[trigger] self.portfolio@[k]) == (StockHolding {
                        total_dividends_earned: cap_amount(
                            p0[k].total_dividends_earned + spec_dividend_amount(
                                p0[k],
                                market.stocks@,
                            ),
                        ) as u64,
                        ..p0[k]
                    }),
                forall|k: int|
                    0 <= k < self.portfolio@.len() ==> (#[trigger] self.portfolio@[k]).wf(),
                forall|k: int, j: int|
                    0 <= k < j < self.portfolio@.len() ==> (
                    #[trigger] self.portfolio@[k]).stock_id != (
                    #[trigger] self.portfolio@[j]).stock_id,
                total == cap_amount(spec_day_dividends(p0.take(i as int), market.stocks@)),
                spec_day_dividends(p0.take(i as int), market.stocks@) >= 0,
                self.cash == old(self).cash,
                self.stores == old(self).stores,
                self.factories == old(self).factories,
                self.loans == old(self).loans,
                self.next_store_id == old(self).next_store_id,
                self.next_factory_id == old(self).next_factory_id,
                self.next_loan_id == old(self).next_loan_id,
            decreases p0.len() - i,
        {
            proof {
                assert(p0.take(i as int + 1).drop_last() =~= p0.take(i as int));
                assert(p0.take(i as int + 1).last() == p0[i as int]);
            }
            let sid: u32 = self.portfolio[i].stock_id;
            let shares: u64 = self.portfolio[i].shares;
            let amount: u64 = match market.get_stock(sid) {
                Some(st) => {
                    let dps: u64 = st.daily_dividend();
                    crate::money::mul_price_qty(dps, shares)
                },
                None => 0,
            };
            proof {
                assert(spec_dividend_amount(p0[i as int], market.stocks@) == amount);
            }
            add_dividend_at(&mut self.portfolio, i, amount);
            total = crate::money::add_amount(total, amount);
            i = i + 1;
        }
        proof {
            assert(p0.take(p0.len() as int) =~= p0);
        }
        total
    }

    /// Returns the portfolio's cost basis, capped.
    pub fn portfolio_cost(&self) -> (r: u64)
        requires
            self.wf(),
        ensures
            r == cap_amount(spec_portfolio_cost(self.portfolio@)),
    {
        let mut total: u64 = 0;
        let mut i: usize = 0;
        while i < self.portfolio.len()
            invariant
                i <= self.portfolio@.len(),
                self.wf(),
                total == cap_amount(spec_portfolio_cost(self.portfolio@.take(i as int))),
                spec_portfolio_cost(self.portfolio@.take(i as int)) >= 0,
            decreases self.portfolio@.len() - i,
        {
            proof {
                assert(self.portfolio@.take(i as int + 1).drop_last() =~= self.portfolio@.take(
                    i as int,
                ));
                assert(self.portfolio@.take(i as int + 1).last() == self.portfolio@[i as int]);
                assert(self.portfolio@[i as int].avg_purchase_price
                    * self.portfolio@[i as int].shares >= 0) by (nonlinear_arith);
            }
            let line: u64 = crate::money::mul_price_qty(
                self.portfolio[i].avg_purchase_price,
                self.portfolio[i].shares,
            );
            total = crate::money::add_amount(total, line);
            i = i + 1;
        }
        proof {
            assert(self.portfolio@.take(self.portfolio@.len() as int) =~= self.portfolio@);
        }
        total
    }

    /// Returns the portfolio's value at today's prices, capped.
    pub fn portfolio_value(&self, market: &crate::stock::StockMarket) -> (r: u64)
        requires
            self.wf(),
            market.wf(),
        ensures
            r == cap_amount(spec_portfolio_value(self.portfolio@, market.stocks@)),
    {
        let mut total: u64 = 0;
        let mut i: usize = 0;
        while i < self.portfolio.len()
            invariant
                i <= self.portfolio@.len(),
                self.wf(),
                market.wf(),
                total == cap_amount(
                    spec_portfolio_value(self.portfolio@.take(i as int), market.stocks@),
                ),
                spec_portfolio_value(self.portfolio@.take(i as int), market.stocks@) >= 0,
            decreases self.portfolio@.len() - i,
        {
            proof {
                assert(self.portfolio@.take(i as int + 1).drop_last() =~= self.portfolio@.take(
                    i as int,
                ));
                assert(self.portfolio@.take(i as int + 1).last() == self.portfolio@[i as int]);
            }
            let line: u64 = match market.get_stock(self.portfolio[i].stock_id) {
                Some(st) => crate::money::mul_price_qty(st.price, self.portfolio[i].shares),
                None => 0,
            };
            total = crate::money::add_amount(total, line);
            i = i + 1;
        }
        proof {
            assert(self.portfolio@.take(self.portfolio@.len() as int) =~= self.portfolio@);
        }
        total
    }

    /// Returns the portfolio's unrealized gain or loss at today's prices,
    /// over capped values.
    pub fn portfolio_gain_loss(&self, market: &crate::stock::StockMarket) -> (r: i64)
        requires
            self.wf(),
            market.wf(),
        ensures
            r == clamp_cash(spec_portfolio_gain(self.portfolio@, market.stocks@)),
    {
        let mut total: i128 = 0;
        let mut i: usize = 0;
        while i < self.portfolio.len()
            invariant
                i <= self.portfolio@.len(),
                self.wf(),
                market.wf(),
                total == spec_portfolio_gain(self.portfolio@.take(i as int), market.stocks@),
                -(i * MONEY_CAP) <= total <= i * MONEY_CAP,
            decreases self.portfolio@.len() - i,
        {
            proof {
                assert(self.portfolio@.take(i as int + 1).drop_last() =~= self.portfolio@.take(
                    i as int,
                ));
                assert(self.portfolio@.take(i as int + 1).last() == self.portfolio@[i as int]);
                assert(self.portfolio@[i as int].avg_purchase_price
                    * self.portfolio@[i as int].shares >= 0) by (nonlinear_arith);
            }
            let cost: u64 = crate::money::mul_price_qty(
                self.portfolio[i].avg_purchase_price,
                self.portfolio[i].shares,
            );
            let line: i64 = match market.get_stock(self.portfolio[i].stock_id) {
                Some(st) => {
                    let value: u64 = crate::money::mul_price_qty(st.price, self.portfolio[i].shares);
                    value as i64 - cost as i64
                },
                None => -(cost as i64),
            };
            total = total + line as i128;
            i = i + 1;
        }
        proof {
            assert(self.portfolio@.take(self.portfolio@.len() as int) =~= self.portfolio@);
        }
        if total > MONEY_CAP as i128 {
            MONEY_CAP as i64
        } else if total < -(MONEY_CAP as i128) {
            -(MONEY_CAP as i64)
        } else {
            total as i64
        }
    }

    /// Returns all dividends ever earned across the portfolio, capped.
    pub fn total_dividends_earned(&self) -> (r: u64)
        requires
            self.wf(),
        ensures
            r == cap_amount(spec_dividends_earned(self.portfolio@)),
    {
        let mut total: u64 = 0;
        let mut i: usize = 0;
        while i < self.portfolio.len()
            invariant
                i <= self.portfolio@.len(),
                self.wf(),
                total == cap_amount(spec_dividends_earned(self.portfolio@.take(i as int))),
                spec_dividends_earned(self.portfolio@.take(i as int)) >= 0,
            decreases self.portfolio@.len() - i,
        {
            proof {
                assert(self.portfolio@.take(i as int + 1).drop_last() =~= self.portfolio@.take(
                    i as int,
                ));
                assert(self.portfolio@.take(i as int + 1).last() == self.portfolio@[i as int]);
            }
            total = crate::money::add_amount(total, self.portfolio[i].total_dividends_earned);
            i = i + 1;
        }
        proof {
            assert(self.portfolio@.take(self.portfolio@.len() as int) =~= self.portfolio@);
        }
        total
    }

    /// Returns the retail value of every store's inventory, capped.
    pub fn stores_value(&self) -> (r: u64)
        requires
            self.wf(),
        ensures
            r == cap_amount(spec_stores_value(self.stores@)),
    {
        let mut total: u64 = 0;
        let mut i: usize = 0;
        while i < self.stores.len()
            invariant
                i <= self.stores@.len(),
                self.wf(),
                total == cap_amount(spec_stores_value(self.stores@.take(i as int))),
                spec_stores_value(self.stores@.take(i as int)) >= 0,
            decreases self.stores@.len() - i,
        {
            proof {
                assert(self.stores@.take(i as int + 1).drop_last() =~= self.stores@.take(
                    i as int,
                ));
                assert(self.stores@.take(i as int + 1).last() == self.stores@[i as int]);
                crate::store::lemma_inventory_value_nonneg(self.stores@[i as int].inventory@);
            }
            let line: u64 = self.stores[i].total_inventory_value();
            total = crate::money::add_amount(total, line);
            i = i + 1;
        }
        proof {
            assert(self.stores@.take(self.stores@.len() as int) =~= self.stores@);
        }
        total
    }

    /// The player's net worth at cost basis: cash plus stored value plus
    /// the portfolio's cost, less debt, each part capped.
    pub fn net_worth(&self) -> (r: i64)
        requires
            self.wf(),
        ensures
            r == clamp_cash(
                self.cash + cap_amount(spec_stores_value(self.stores@)) + cap_amount(
                    spec_portfolio_cost(self.portfolio@),
                ) - cap_amount(spec_total_debt(self.loans@)),
            ),
    {
        let sv: u64 = self.stores_value();
        let pc: u64 = self.portfolio_cost();
        let td: u64 = self.total_debt();
        let nw: i128 = self.cash as i128 + sv as i128 + pc as i128 - td as i128;
        if nw > MONEY_CAP as i128 {
            MONEY_CAP as i64
        } else if nw < -(MONEY_CAP as i128) {
            -(MONEY_CAP as i64)
        } else {
            nw as i64
        }
    }

    /// The player's net worth with the portfolio at today's prices: cash
    /// plus stored value plus the portfolio's market value, less debt,
    /// each part capped.
    pub fn net_worth_with_stocks(&self, market: &crate::stock::StockMarket) -> (r: i64)
        requires
            self.wf(),
            market.wf(),
        ensures
            r == clamp_cash(
                self.cash + cap_amount(spec_stores_value(self.stores@)) + cap_amount(
                    spec_portfolio_value(self.portfolio@, market.stocks@),
                ) - cap_amount(spec_total_debt(self.loans@)),
            ),
    {
        let sv: u64 = self.stores_value();
        let pv: u64 = self.portfolio_value(market);
        let td: u64 = self.total_debt();
        let nw: i128 = self.cash as i128 + sv as i128 + pv as i128 - td as i128;
        if nw > MONEY_CAP as i128 {
            MONEY_CAP as i64
        } else if nw < -(MONEY_CAP as i128) {
            -(MONEY_CAP as i64)
        } else {
            nw as i64
        }
    }

    /// Returns the combined daily rent and salaries of every store and
    /// factory, capped.
    pub fn total_daily_expenses(&self) -> (r: u64)
        requires
            self.wf(),
        ensures
            r == cap_amount(
                spec_store_expenses(self.stores@) + spec_factory_expenses(self.factories@),
            ),
    {
        let mut total: u128 = 0;
        let mut i: usize = 0;
        while i < self.stores.len()
            invariant
                i <= self.stores@.len(),
                self.wf(),
                total == spec_store_expenses(self.stores@.take(i as int)),
                0 <= total <= i * (4 * MONEY_CAP),
            decreases self.stores@.len() - i,
        {
            proof {
                assert(self.stores@.take(i as int + 1).drop_last() =~= self.stores@.take(
                    i as int,
                ));
                assert(self.stores@.take(i as int + 1).last() == self.stores@[i as int]);
                crate::store::lemma_salaries_nonneg(self.stores@[i as int].employees@);
            }
            let line: u64 = self.stores[i].daily_expenses();
            proof {
                assert(total + line <= (i + 1) * (4 * MONEY_CAP) && total + line
                    <= 0x1_0000_0000_0000_0000u128 * (4 * MONEY_CAP)) by (nonlinear_arith)
                    requires
                        total <= i * (4 * MONEY_CAP),
                        line <= 4 * MONEY_CAP,
                        0 <= i < 0xFFFF_FFFF_FFFF_FFFFu128,
                ;
            }
            total = total + line as u128;
            i = i + 1;
        }
        proof {
            assert(self.stores@.take(self.stores@.len() as int) =~= self.stores@);
        }
        let store_total: u128 = total;
        let mut ftotal: u128 = 0;
        let mut j: usize = 0;
        while j < self.factories.len()
            invariant
                j <= self.factories@.len(),
                self.wf(),
                ftotal == spec_factory_expenses(self.factories@.take(j as int)),
                0 <= ftotal <= j * (4 * MONEY_CAP),
            decreases self.factories@.len() - j,
        {
            proof {
                assert(self.factories@.take(j as int + 1).drop_last() =~= self.factories@.take(
                    j as int,
                ));
                assert(self.factories@.take(j as int + 1).last() == self.factories@[j as int]);
                crate::factory::lemma_worker_salaries_nonneg(
                    self.factories@[j as int].workers@,
                );
            }
            let line: u64 = self.factories[j].daily_expenses();
            proof {
                assert(ftotal + line <= (j + 1) * (4 * MONEY_CAP) && ftotal + line
                    <= 0x1_0000_0000_0000_0000u128 * (4 * MONEY_CAP)) by (nonlinear_arith)
                    requires
                        ftotal <= j * (4 * MONEY_CAP),
                        line <= 4 * MONEY_CAP,
                        0 <= j < 0xFFFF_FFFF_FFFF_FFFFu128,
                ;
            }
            ftotal = ftotal + line as u128;
            j = j + 1;
        }
        proof {
            assert(self.factories@.take(self.factories@.len() as int) =~= self.factories@);
        }
        proof {
            assert(store_total <= 0x1_0000_0000_0000_0000u128 * (4 * MONEY_CAP) && ftotal
                <= 0x1_0000_0000_0000_0000u128 * (4 * MONEY_CAP)) by (nonlinear_arith)
                requires
                    store_total <= i * (4 * MONEY_CAP),
                    ftotal <= j * (4 * MONEY_CAP),
                    0 <= i <= 0xFFFF_FFFF_FFFF_FFFFu128,
                    0 <= j <= 0xFFFF_FFFF_FFFF_FFFFu128,
            ;
        }
        let sum: u128 = store_total + ftotal;
        if sum > MONEY_CAP as u128 {
            MONEY_CAP
        } else {
            sum as u64
        }
    }
}

/// Books a dividend into the position at an index.
fn add_dividend_at(v: &mut Vec<StockHolding>, i: usize, amount: u64)
    requires
        i < old(v)@.len(),
        old(v)@[i as int].wf(),
        amount <= MONEY_CAP,
    ensures
        final(v)@.len() == old(v)@.len(),
        final(v)@[i as int] == (StockHolding {
            total_dividends_earned: cap_amount(
                old(v)@[i as int].total_dividends_earned + amount,
            ) as u64,
            ..old(v)@[i as int]
        }),
        final(v)@[i as int].wf(),
        forall|k: int| 0 <= k < old(v)@.len() && k != i ==> final(v)@[k] == old(v)@[k],
{
    let h = &mut v[i];

    h.receive_dividend(amount);
}

/// Copies the loan at a position.
fn clone_loan_at(v: &Vec<Loan>, i: usize) -> (r: Loan)
    requires
        i < v@.len(),
    ensures
        r == v@[i as int],
{
    Loan {
        id: v[i].id,
        loan_type: v[i].loan_type,
        principal: v[i].principal,
        balance: v[i].balance,
        interest_rate_bp: v[i].interest_rate_bp,
        days_remaining: v[i].days_remaining,
        daily_payment: v[i].daily_payment,
    }
}

} // verus!
