//! A retail store: an inventory keyed by product id, a small staff, and
//! the pricing and selling operations the daily tick drives.

use vstd::prelude::*;
use vstd::string::StringExecFns;
use crate::errors::CommandError;
use crate::money::{add_qty, cap_amount, cap_qty, mul_price_qty, MONEY_CAP, QTY_CAP};

verus! {

/// The fixed daily salary of a store employee, in cents.
pub const EMPLOYEE_SALARY: u64 = 5_000;

/// The fixed daily rent of a store, in cents.
pub const STORE_RENT: u64 = 10_000;

/// One stocked product: how many units are on hand and at what price they
/// sell.
#[derive(Debug, Clone, Copy, PartialEq, Eq, Structural)]
pub struct InventoryItem {
    pub product_id: u32,
    pub quantity: u64,
    pub retail_price: u64,
}

impl InventoryItem {
    /// Creates an inventory line.
    pub fn new(product_id: u32, quantity: u64, retail_price: u64) -> (r: InventoryItem)
        ensures
            r == (InventoryItem { product_id, quantity, retail_price }),
    {
        InventoryItem { product_id, quantity, retail_price }
    }
}

/// An employee of a store.
pub struct Employee {
    pub name: String,
    pub salary: u64,
}

impl Employee {
    /// Hires a new employee at the standard salary.
    pub fn new(name: &str) -> (r: Employee)
        ensures
            r.name@ == name@,
            r.salary == EMPLOYEE_SALARY,
    {
        Employee { name: String::from_str(name), salary: EMPLOYEE_SALARY }
    }
}

/// The units an inventory holds of a product; zero when absent.
pub open spec fn inv_qty(s: Seq<InventoryItem>, product_id: u32) -> int
    decreases s.len(),
{
    if s.len() == 0 {
        0
    } else if s[0].product_id == product_id {
        s[0].quantity as int
    } else {
        inv_qty(s.drop_first(), product_id)
    }
}

/// The retail price an inventory lists for a product.
pub open spec fn inv_price(s: Seq<InventoryItem>, product_id: u32) -> Option<u64>
    decreases s.len(),
{
    if s.len() == 0 {
        None
    } else if s[0].product_id == product_id {
        Some(s[0].retail_price)
    } else {
        inv_price(s.drop_first(), product_id)
    }
}

/// Whether an inventory has a line for a product (possibly with zero units).
pub open spec fn inv_has(s: Seq<InventoryItem>, product_id: u32) -> bool {
    inv_price(s, product_id) is Some
}

/// A valid inventory: unique keys, quantities and prices within the caps.
pub open spec fn inv_wf(s: Seq<InventoryItem>) -> bool {
    &&& forall|i: int, j: int|
        0 <= i < j < s.len() ==> (#[trigger] s[i]).product_id != (#[trigger] s[j]).product_id
    &&& forall|i: int|
        0 <= i < s.len() ==> (#[trigger] s[i]).quantity <= QTY_CAP && s[i].retail_price
            <= MONEY_CAP
}

/// An inventory has a line for a product exactly when some index holds it.
pub proof fn lemma_inv_has_index(s: Seq<InventoryItem>, product_id: u32)
    ensures
        inv_has(s, product_id) <==> exists|i: int|
            0 <= i < s.len() && (#[trigger] s[i]).product_id == product_id,
    decreases s.len(),
{
    if s.len() > 0 {
        lemma_inv_has_index(s.drop_first(), product_id);
        if s[0].product_id == product_id {
            assert(s[0].product_id == product_id && 0 < s.len());
        } else {
            if inv_has(s, product_id) {
                let i = choose|i: int|
                    0 <= i < s.drop_first().len() && (#[trigger] s.drop_first()[i]).product_id
                        == product_id;
                assert(s[i + 1].product_id == product_id);
            }
            if exists|i: int| 0 <= i < s.len() && (#[trigger] s[i]).product_id == product_id {
                let i = choose|i: int|
                    0 <= i < s.len() && (#[trigger] s[i]).product_id == product_id;
                assert(s.drop_first()[i - 1].product_id == product_id);
            }
        }
    }
}

/// An absent product has zero units.
pub proof fn lemma_inv_absent(s: Seq<InventoryItem>, product_id: u32)
    requires
        !inv_has(s, product_id),
    ensures
        inv_qty(s, product_id) == 0,
    decreases s.len(),
{
    if s.len() > 0 {
        lemma_inv_absent(s.drop_first(), product_id);
    }
}

/// In a unique-key inventory, the line at any matching index is the
/// product's line.
pub proof fn lemma_inv_at_index(s: Seq<InventoryItem>, i: int, product_id: u32)
    requires
        inv_wf(s),
        0 <= i < s.len(),
        s[i].product_id == product_id,
    ensures
        inv_qty(s, product_id) == s[i].quantity,
        inv_price(s, product_id) == Some(s[i].retail_price),
    decreases s.len(),
{
    if i > 0 {
        assert(inv_wf(s.drop_first())) by {
            assert(forall|a: int, b: int|
                0 <= a < b < s.drop_first().len() ==> s.drop_first()[a] == s[a + 1]
                    && s.drop_first()[b] == s[b + 1]);
            assert(forall|a: int|
                0 <= a < s.drop_first().len() ==> s.drop_first()[a] == s[a + 1]);
        }
        assert(s.drop_first()[i - 1] == s[i]);
        lemma_inv_at_index(s.drop_first(), i - 1, product_id);
    }
}

/// Replacing one line with another for the same product changes that
/// product alone.
pub proof fn lemma_inv_update(s: Seq<InventoryItem>, i: int, item: InventoryItem, product_id: u32)
    requires
        inv_wf(s),
        0 <= i < s.len(),
        item.product_id == s[i].product_id,
    ensures
        inv_qty(s.update(i, item), product_id) == if product_id == item.product_id {
            item.quantity as int
        } else {
            inv_qty(s, product_id)
        },
        inv_price(s.update(i, item), product_id) == if product_id == item.product_id {
            Some(item.retail_price)
        } else {
            inv_price(s, product_id)
        },
    decreases s.len(),
{
    let t = s.update(i, item);
    if i == 0 {
        if s[0].product_id != product_id {
            assert(t.drop_first() =~= s.drop_first());
        }
    } else {
        assert(t[0] == s[0]);
        assert(inv_wf(s.drop_first())) by {
            assert(forall|a: int, b: int|
                0 <= a < b < s.drop_first().len() ==> s.drop_first()[a] == s[a + 1]
                    && s.drop_first()[b] == s[b + 1]);
            assert(forall|a: int|
                0 <= a < s.drop_first().len() ==> s.drop_first()[a] == s[a + 1]);
        }
        assert(t.drop_first() =~= s.drop_first().update(i - 1, item));
        assert(s.drop_first()[i - 1] == s[i]);
        lemma_inv_update(s.drop_first(), i - 1, item, product_id);
    }
}

/// Appending a line for a new product changes that product alone.
pub proof fn lemma_inv_push(s: Seq<InventoryItem>, e: InventoryItem, product_id: u32)
    ensures
        inv_qty(s.push(e), product_id) == if inv_has(s, product_id) {
            inv_qty(s, product_id)
        } else if e.product_id == product_id {
            e.quantity as int
        } else {
            0
        },
        inv_price(s.push(e), product_id) == if inv_has(s, product_id) {
            inv_price(s, product_id)
        } else if e.product_id == product_id {
            Some(e.retail_price)
        } else {
            None::<u64>
        },
    decreases s.len(),
{
    let t = s.push(e);
    assert(t.len() == s.len() + 1);
    if s.len() == 0 {
        assert(t[0] == e);
        assert(t.drop_first() =~= Seq::<InventoryItem>::empty());
        if e.product_id != product_id {
            assert(inv_qty(t, product_id) == inv_qty(t.drop_first(), product_id));
            assert(inv_price(t, product_id) == inv_price(t.drop_first(), product_id));
        }
    } else {
        assert(t[0] == s[0]);
        assert(t.drop_first() =~= s.drop_first().push(e));
        lemma_inv_push(s.drop_first(), e, product_id);
    }
}

/// The total retail value of an inventory, in cents, before capping.
pub open spec fn spec_inventory_value(s: Seq<InventoryItem>) -> int
    decreases s.len(),
{
    if s.len() == 0 {
        0
    } else {
        spec_inventory_value(s.drop_last()) + s.last().quantity * s.last().retail_price
    }
}

/// The total number of units an inventory holds, before capping.
pub open spec fn spec_inventory_units(s: Seq<InventoryItem>) -> int
    decreases s.len(),
{
    if s.len() == 0 {
        0
    } else {
        spec_inventory_units(s.drop_last()) + s.last().quantity
    }
}

/// The total daily salaries of a staff, in cents.
pub open spec fn spec_salaries(s: Seq<Employee>) -> int
    decreases s.len(),
{
    if s.len() == 0 {
        0
    } else {
        spec_salaries(s.drop_last()) + s.last().salary
    }
}

/// An inventory's value is never negative.
pub proof fn lemma_inventory_value_nonneg(s: Seq<InventoryItem>)
    ensures
        spec_inventory_value(s) >= 0,
    decreases s.len(),
{
    if s.len() > 0 {
        lemma_inventory_value_nonneg(s.drop_last());
        assert(s.last().quantity * s.last().retail_price >= 0) by (nonlinear_arith);
    }
}

/// A staff's salaries are never negative.
pub proof fn lemma_salaries_nonneg(s: Seq<Employee>)
    ensures
        spec_salaries(s) >= 0,
    decreases s.len(),
{
    if s.len() > 0 {
        lemma_salaries_nonneg(s.drop_last());
    }
}

/// A retail store.
pub struct Store {
    pub id: u32,
    pub name: String,
    pub inventory: Vec<InventoryItem>,
    /// The base number of customers who visit each day.
    pub daily_customers: u32,
    pub employees: Vec<Employee>,
    pub daily_rent: u64,
}

impl Store {
    /// A valid store: a valid inventory, at most three employees, and
    /// amounts within the caps.
    pub open spec fn wf(self) -> bool {
        &&& inv_wf(self.inventory@)
        &&& self.employees@.len() <= 3
        &&& forall|i: int|
            0 <= i < self.employees@.len() ==> (#[trigger] self.employees@[i]).salary
                <= MONEY_CAP
        &&& self.daily_rent <= MONEY_CAP
    }

    /// Opens an empty store with the standard rent and customer base.
    pub fn new(id: u32, name: &str) -> (r: Store)
        ensures
            r.id == id,
            r.name@ == name@,
            r.inventory@ =~= Seq::<InventoryItem>::empty(),
            r.daily_customers == 50,
            r.employees@.len() == 0,
            r.daily_rent == STORE_RENT,
            r.wf(),
    {
        Store {
            id,
            name: String::from_str(name),
            inventory: Vec::new(),
            daily_customers: 50,
            employees: Vec::new(),
            daily_rent: STORE_RENT,
        }
    }

    /// Hires an employee; a store employs at most three.
    pub fn hire_employee(&mut self, name: &str) -> (r: Result<(), CommandError>)
        requires
            old(self).wf(),
        ensures
            final(self).wf(),
            r matches Err(e) ==> e == CommandError::MaxEmployees && old(self).employees@.len()
                >= 3 && *final(self) == *old(self),
            r matches Ok(_) ==> {
                &&& old(self).employees@.len() < 3
                &&& final(self).employees@.len() == old(self).employees@.len() + 1
                &&& forall|i: int|
                    0 <= i < old(self).employees@.len() ==> final(self).employees@[i]
                        == old(self).employees@[i]
                &&& final(self).employees@.last().salary == EMPLOYEE_SALARY
                &&& final(self).employees@.last().name@ == name@
                &&& final(self).inventory == old(self).inventory
                &&& final(self).id == old(self).id
                &&& final(self).name == old(self).name
                &&& final(self).daily_customers == old(self).daily_customers
                &&& final(self).daily_rent == old(self).daily_rent
            },
    {
        if self.employees.len() >= 3 {
            return Err(CommandError::MaxEmployees);
        }
        self.employees.push(Employee::new(name));
        Ok(())
    }

    /// Fires the employee at an index.
    pub fn fire_employee(&mut self, index: usize) -> (r: Result<Employee, CommandError>)
        requires
            old(self).wf(),
        ensures
            final(self).wf(),
            r matches Err(e) ==> e == CommandError::InvalidEmployeeIndex && index
                >= old(self).employees@.len() && *final(self) == *old(self),
            r matches Ok(_) ==> {
                &&& index < old(self).employees@.len()
                &&& final(self).employees@ == old(self).employees@.remove(index as int)
                &&& final(self).inventory == old(self).inventory
                &&& final(self).id == old(self).id
                &&& final(self).name == old(self).name
                &&& final(self).daily_customers == old(self).daily_customers
                &&& final(self).daily_rent == old(self).daily_rent
            },
    {
        if index >= self.employees.len() {
            return Err(CommandError::InvalidEmployeeIndex);
        }
        let e = self.employees.remove(index);
        Ok(e)
    }

    /// The store's total daily cost: rent plus salaries.
    pub open spec fn spec_daily_expenses(self) -> int {
        self.daily_rent + spec_salaries(self.employees@)
    }

    /// Returns the store's total daily cost.
    pub fn daily_expenses(&self) -> (r: u64)
        requires
            self.wf(),
        ensures
            r == self.spec_daily_expenses(),
            r <= 4 * MONEY_CAP,
    {
        let mut total: u64 = 0;
        let mut i: usize = 0;
        while i < self.employees.len()
            invariant
                i <= self.employees@.len() <= 3,
                forall|j: int|
                    0 <= j < self.employees@.len() ==> (#[trigger] self.employees@[j]).salary
                        <= MONEY_CAP,
                total == spec_salaries(self.employees@.take(i as int)),
                total <= i * MONEY_CAP,
            decreases self.employees@.len() - i,
        {
            proof {
                assert(self.employees@.take(i as int + 1).drop_last() =~= self.employees@.take(
                    i as int,
                ));
                assert(self.employees@.take(i as int + 1).last() == self.employees@[i as int]);
            }
            total = total + self.employees[i].salary;
            i = i + 1;
        }
        proof {
            assert(self.employees@.take(self.employees@.len() as int) =~= self.employees@);
        }
        self.daily_rent + total
    }

    /// The customers who actually show up: the base count raised a fifth
    /// for each employee.
    pub open spec fn spec_effective_customers(self) -> int {
        self.daily_customers * (1000 + 200 * self.employees@.len()) / 1000
    }

    /// Returns today's effective customer count.
    pub fn effective_customers(&self) -> (r: u64)
        requires
            self.wf(),
        ensures
            r == self.spec_effective_customers(),
    {
        let bonus: u64 = 1000 + 200 * self.employees.len() as u64;
        proof {
            assert(self.daily_customers * bonus <= u32::MAX * 1600) by (nonlinear_arith)
                requires
                    self.daily_customers <= u32::MAX,
                    bonus <= 1600,
            ;
        }
        self.daily_customers as u64 * bonus / 1000
    }

    /// Stocks units of a product. A product already stocked keeps its price;
    /// a new product is listed at the given price. The stored quantity
    /// saturates at the storage cap.
    pub fn add_inventory(&mut self, product_id: u32, quantity: u64, retail_price: u64)
        requires
            old(self).wf(),
            quantity <= QTY_CAP,
            retail_price <= MONEY_CAP,
        ensures
            final(self).wf(),
            inv_qty(final(self).inventory@, product_id) == cap_qty(
                inv_qty(old(self).inventory@, product_id) + quantity,
            ),
            inv_price(final(self).inventory@, product_id) == if inv_has(
                old(self).inventory@,
                product_id,
            ) {
                inv_price(old(self).inventory@, product_id)
            } else {
                Some(retail_price)
            },
            forall|p: u32|
                p != product_id ==> #[trigger] inv_qty(final(self).inventory@, p) == inv_qty(
                    old(self).inventory@,
                    p,
                ),
            forall|p: u32|
                p != product_id ==> #[trigger] inv_price(final(self).inventory@, p) == inv_price(
                    old(self).inventory@,
                    p,
                ),
            final(self).id == old(self).id,
            final(self).name == old(self).name,
            final(self).daily_customers == old(self).daily_customers,
            final(self).employees == old(self).employees,
            final(self).daily_rent == old(self).daily_rent,
    {
        let ghost s0 = self.inventory@;
        match inv_find(&self.inventory, product_id) {
            Some(i) => {
                let q: u64 = add_qty(self.inventory[i].quantity, quantity);
                let item = InventoryItem {
                    product_id,
                    quantity: q,
                    retail_price: self.inventory[i].retail_price,
                };
                self.inventory.set(i, item);
                proof {
                    lemma_inv_update(s0, i as int, item, product_id);
                    assert forall|p: u32| p != product_id implies #[trigger] inv_qty(
                        self.inventory@,
                        p,
                    ) == inv_qty(s0, p) by {
                        lemma_inv_update(s0, i as int, item, p);
                    }
                    assert forall|p: u32| p != product_id implies #[trigger] inv_price(
                        self.inventory@,
                        p,
                    ) == inv_price(s0, p) by {
                        lemma_inv_update(s0, i as int, item, p);
                    }
                }
            },
            None => {
                let item = InventoryItem { product_id, quantity, retail_price };
                proof {
                    lemma_inv_has_index(s0, product_id);
                    lemma_inv_absent(s0, product_id);
                }
                self.inventory.push(item);
                proof {
                    lemma_inv_push(s0, item, product_id);
                    assert forall|p: u32| p != product_id implies #[trigger] inv_qty(
                        self.inventory@,
                        p,
                    ) == inv_qty(s0, p) by {
                        lemma_inv_push(s0, item, p);
                        if !inv_has(s0, p) {
                            lemma_inv_absent(s0, p);
                        }
                    }
                    assert forall|p: u32| p != product_id implies #[trigger] inv_price(
                        self.inventory@,
                        p,
                    ) == inv_price(s0, p) by {
                        lemma_inv_push(s0, item, p);
                    }
                    assert(inv_wf(self.inventory@)) by {
                        lemma_inv_has_index(s0, product_id);
                        assert forall|a: int, b: int|
                            0 <= a < b < self.inventory@.len() implies (#[trigger] self.inventory@[a]).product_id
                            != (#[trigger] self.inventory@[b]).product_id by {
                            if b == self.inventory@.len() - 1 {
                                assert(self.inventory@[a] == s0[a]);
                            }
                        }
                    }
                }
            },
        }
    }

    /// Reprices a stocked product; returns false when the product is not
    /// stocked.
    pub fn set_price(&mut self, product_id: u32, new_price: u64) -> (r: bool)
        requires
            old(self).wf(),
            new_price <= MONEY_CAP,
        ensures
            final(self).wf(),
            r == inv_has(old(self).inventory@, product_id),
            !r ==> *final(self) == *old(self),
            r ==> {
                &&& inv_price(final(self).inventory@, product_id) == Some(new_price)
                &&& inv_qty(final(self).inventory@, product_id) == inv_qty(
                    old(self).inventory@,
                    product_id,
                )
                &&& forall|p: u32|
                    p != product_id ==> #[trigger] inv_qty(final(self).inventory@, p) == inv_qty(
                        old(self).inventory@,
                        p,
                    )
                &&& forall|p: u32|
                    p != product_id ==> #[trigger] inv_price(final(self).inventory@, p)
                        == inv_price(old(self).inventory@, p)
                &&& final(self).id == old(self).id
                &&& final(self).name == old(self).name
                &&& final(self).daily_customers == old(self).daily_customers
                &&& final(self).employees == old(self).employees
                &&& final(self).daily_rent == old(self).daily_rent
            },
    {
        let ghost s0 = self.inventory@;
        match inv_find(&self.inventory, product_id) {
            Some(i) => {
                let item = InventoryItem {
                    product_id,
                    quantity: self.inventory[i].quantity,
                    retail_price: new_price,
                };
                self.inventory.set(i, item);
                proof {
                    lemma_inv_update(s0, i as int, item, product_id);
                    assert forall|p: u32| p != product_id implies #[trigger] inv_qty(
                        self.inventory@,
                        p,
                    ) == inv_qty(s0, p) by {
                        lemma_inv_update(s0, i as int, item, p);
                    }
                    assert forall|p: u32| p != product_id implies #[trigger] inv_price(
                        self.inventory@,
                        p,
                    ) == inv_price(s0, p) by {
                        lemma_inv_update(s0, i as int, item, p);
                    }
                }
                true
            },
            None => false,
        }
    }

    /// Sells up to the asked quantity of a product and returns the revenue;
    /// `None` when nothing could be sold.
    pub fn sell(&mut self, product_id: u32, quantity: u64) -> (r: Option<u64>)
        requires
            old(self).wf(),
        ensures
            final(self).wf(),
            ({
                let avail = inv_qty(old(self).inventory@, product_id);
                let actual = if quantity as int <= avail {
                    quantity as int
                } else {
                    avail
                };
                if actual > 0 {
                    &&& r == Some(
                        cap_amount(
                            inv_price(old(self).inventory@, product_id).unwrap() * actual,
                        ) as u64,
                    )
                    &&& inv_qty(final(self).inventory@, product_id) == avail - actual
                    &&& inv_price(final(self).inventory@, product_id) == inv_price(
                        old(self).inventory@,
                        product_id,
                    )
                    &&& forall|p: u32|
                        p != product_id ==> #[trigger] inv_qty(final(self).inventory@, p)
                            == inv_qty(old(self).inventory@, p)
                    &&& forall|p: u32|
                        p != product_id ==> #[trigger] inv_price(final(self).inventory@, p)
                            == inv_price(old(self).inventory@, p)
                    &&& final(self).id == old(self).id
                    &&& final(self).name == old(self).name
                    &&& final(self).daily_customers == old(self).daily_customers
                    &&& final(self).employees == old(self).employees
                    &&& final(self).daily_rent == old(self).daily_rent
                } else {
                    r == None::<u64> && *final(self) == *old(self)
                }
            }),
    {
        let ghost s0 = self.inventory@;
        match inv_find(&self.inventory, product_id) {
            Some(i) => {
                let have: u64 = self.inventory[i].quantity;
                let actual: u64 = if quantity <= have {
                    quantity
                } else {
                    have
                };
                if actual == 0 {
                    return None;
                }
                let price: u64 = self.inventory[i].retail_price;
                let item = InventoryItem {
                    product_id,
                    quantity: have - actual,
                    retail_price: price,
                };
                self.inventory.set(i, item);
                proof {
                    lemma_inv_update(s0, i as int, item, product_id);
                    assert forall|p: u32| p != product_id implies #[trigger] inv_qty(
                        self.inventory@,
                        p,
                    ) == inv_qty(s0, p) by {
                        lemma_inv_update(s0, i as int, item, p);
                    }
                    assert forall|p: u32| p != product_id implies #[trigger] inv_price(
                        self.inventory@,
                        p,
                    ) == inv_price(s0, p) by {
                        lemma_inv_update(s0, i as int, item, p);
                    }
                }
                Some(mul_price_qty(price, actual))
            },
            None => None,
        }
    }

    /// Returns the units on hand of a product.
    pub fn get_quantity(&self, product_id: u32) -> (r: u64)
        requires
            self.wf(),
        ensures
            r == inv_qty(self.inventory@, product_id),
    {
        match inv_find(&self.inventory, product_id) {
            Some(i) => self.inventory[i].quantity,
            None => 0,
        }
    }

    /// Returns the listed retail price of a product.
    pub fn get_price(&self, product_id: u32) -> (r: Option<u64>)
        requires
            self.wf(),
        ensures
            r == inv_price(self.inventory@, product_id),
    {
        match inv_find(&self.inventory, product_id) {
            Some(i) => Some(self.inventory[i].retail_price),
            None => None,
        }
    }

    /// Returns the total retail value of the inventory, capped.
    pub fn total_inventory_value(&self) -> (r: u64)
        requires
            self.wf(),
        ensures
            r == cap_amount(spec_inventory_value(self.inventory@)),
    {
        let mut total: u64 = 0;
        let mut i: usize = 0;
        while i < self.inventory.len()
            invariant
                i <= self.inventory@.len(),
                self.wf(),
                total == cap_amount(spec_inventory_value(self.inventory@.take(i as int))),
                spec_inventory_value(self.inventory@.take(i as int)) >= 0,
            decreases self.inventory@.len() - i,
        {
            proof {
                assert(self.inventory@.take(i as int + 1).drop_last() =~= self.inventory@.take(
                    i as int,
                ));
                assert(self.inventory@.take(i as int + 1).last() == self.inventory@[i as int]);
            }
            let line: u64 = mul_price_qty(self.inventory[i].retail_price, self.inventory[i].quantity);
            proof {
                assert(self.inventory@[i as int].retail_price * self.inventory@[i as int].quantity
                    == self.inventory@[i as int].quantity
                    * self.inventory@[i as int].retail_price) by (nonlinear_arith);
                assert(self.inventory@[i as int].quantity * self.inventory@[i as int].retail_price
                    >= 0) by (nonlinear_arith);
            }
            total = crate::money::add_amount(total, line);
            i = i + 1;
        }
        proof {
            assert(self.inventory@.take(self.inventory@.len() as int) =~= self.inventory@);
        }
        total
    }

    /// Returns the total units on hand over all products, capped.
    pub fn total_items(&self) -> (r: u64)
        requires
            self.wf(),
        ensures
            r == cap_qty(spec_inventory_units(self.inventory@)),
    {
        let mut total: u64 = 0;
        let mut i: usize = 0;
        while i < self.inventory.len()
            invariant
                i <= self.inventory@.len(),
                self.wf(),
                total == cap_qty(spec_inventory_units(self.inventory@.take(i as int))),
                spec_inventory_units(self.inventory@.take(i as int)) >= 0,
            decreases self.inventory@.len() - i,
        {
            proof {
                assert(self.inventory@.take(i as int + 1).drop_last() =~= self.inventory@.take(
                    i as int,
                ));
                assert(self.inventory@.take(i as int + 1).last() == self.inventory@[i as int]);
            }
            total = add_qty(total, self.inventory[i].quantity);
            i = i + 1;
        }
        proof {
            assert(self.inventory@.take(self.inventory@.len() as int) =~= self.inventory@);
        }
        total
    }
}

/// Finds the inventory line of a product, if any.
pub fn inv_find(v: &Vec<InventoryItem>, product_id: u32) -> (r: Option<usize>)
    requires
        inv_wf(v@),
    ensures
        match r {
            Some(i) => i < v@.len() && v@[i as int].product_id == product_id && inv_qty(
                v@,
                product_id,
            ) == v@[i as int].quantity && inv_price(v@, product_id) == Some(
                v@[i as int].retail_price,
            ),
            None => !inv_has(v@, product_id) && inv_qty(v@, product_id) == 0,
        },
{
    let mut i: usize = 0;
    while i < v.len()
        invariant
            i <= v@.len(),
            inv_wf(v@),
            forall|j: int| 0 <= j < i ==> (#[trigger] v@[j]).product_id != product_id,
        decreases v@.len() - i,
    {
        if v[i].product_id == product_id {
            proof {
                lemma_inv_at_index(v@, i as int, product_id);
            }
            return Some(i);
        }
        i = i + 1;
    }
    proof {
        lemma_inv_has_index(v@, product_id);
        if inv_has(v@, product_id) {
            let j = choose|j: int| 0 <= j < v@.len() && (#[trigger] v@[j]).product_id == product_id;
            assert(false);
        }
        lemma_inv_absent(v@, product_id);
    }
    None
}

} // verus!
