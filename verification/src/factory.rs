//! A factory: raw-material and finished-goods ledgers, a bounded queue of
//! production jobs, a small crew of workers, and supply-chain links to
//! stores.

use vstd::prelude::*;
use vstd::string::StringExecFns;
use crate::errors::CommandError;
use crate::ledger::{
    ledger_add, ledger_get, ledger_has, ledger_qty, ledger_take, ledger_wf, LedgerEntry,
};
use crate::money::{cap_qty, MONEY_CAP, QTY_CAP};
use crate::recipe::{Recipe, RecipeIngredient};

verus! {

/// The fixed daily salary of a factory worker, in cents.
pub const WORKER_SALARY: u64 = 7_500;

/// The fixed daily rent of a factory, in cents.
pub const FACTORY_RENT: u64 = 15_000;

/// A production job in flight. Its ingredients were debited when it was
/// created; it converts into finished goods when its countdown reaches zero.
pub struct ProductionJob {
    pub recipe_id: u32,
    pub recipe_name: String,
    pub days_remaining: u32,
    pub output_product_id: u32,
    pub output_quantity: u32,
}

/// The job a recipe starts.
pub open spec fn spec_job_of(recipe: Recipe) -> ProductionJob {
    ProductionJob {
        recipe_id: recipe.id,
        recipe_name: recipe.name,
        days_remaining: recipe.production_days,
        output_product_id: recipe.output_product_id,
        output_quantity: recipe.output_quantity,
    }
}

impl ProductionJob {
    /// Starts a job for one batch of a recipe.
    pub fn new(recipe: &Recipe) -> (r: ProductionJob)
        ensures
            r == spec_job_of(*recipe),
    {
        ProductionJob {
            recipe_id: recipe.id,
            recipe_name: recipe.name.clone(),
            days_remaining: recipe.production_days,
            output_product_id: recipe.output_product_id,
            output_quantity: recipe.output_quantity,
        }
    }
}

/// A worker at a factory.
pub struct FactoryWorker {
    pub name: String,
    pub salary: u64,
}

impl FactoryWorker {
    /// Hires a new worker at the standard salary.
    pub fn new(name: &str) -> (r: FactoryWorker)
        ensures
            r.name@ == name@,
            r.salary == WORKER_SALARY,
    {
        FactoryWorker { name: String::from_str(name), salary: WORKER_SALARY }
    }
}

/// A completed batch, as reported by the daily tick.
pub struct ProductionResult {
    pub recipe_name: String,
    pub product_id: u32,
    pub quantity: u32,
}

/// The quantity of one product a recipe's ingredient list asks for.
pub open spec fn spec_need(ings: Seq<RecipeIngredient>, product_id: u32) -> int
    decreases ings.len(),
{
    if ings.len() == 0 {
        0
    } else {
        spec_need(ings.drop_last(), product_id) + if ings.last().product_id == product_id {
            ings.last().quantity as int
        } else {
            0
        }
    }
}

/// A ledger covers an ingredient list when it holds at least each asked
/// quantity.
pub open spec fn spec_has_ingredients(raw: Seq<LedgerEntry>, ings: Seq<RecipeIngredient>) -> bool {
    forall|i: int|
        0 <= i < ings.len() ==> ledger_qty(raw, (#[trigger] ings[i]).product_id)
            >= ings[i].quantity
}

/// How many batches the raw materials cover: the least over the ingredients
/// of have-divided-by-needed; zero for an empty ingredient list.
pub open spec fn spec_material_limit(raw: Seq<LedgerEntry>, ings: Seq<RecipeIngredient>) -> int
    decreases ings.len(),
{
    if ings.len() == 0 {
        0
    } else {
        let d = ledger_qty(raw, ings.last().product_id) / ings.last().quantity as int;
        if ings.len() == 1 {
            d
        } else {
            let rest = spec_material_limit(raw, ings.drop_last());
            if rest < d {
                rest
            } else {
                d
            }
        }
    }
}

/// A product an ingredient list never mentions is not needed.
pub proof fn lemma_need_absent(ings: Seq<RecipeIngredient>, product_id: u32)
    requires
        forall|i: int| 0 <= i < ings.len() ==> (#[trigger] ings[i]).product_id != product_id,
    ensures
        spec_need(ings, product_id) == 0,
    decreases ings.len(),
{
    if ings.len() > 0 {
        lemma_need_absent(ings.drop_last(), product_id);
    }
}

/// The queue after one day: every countdown falls by one and the jobs that
/// reach zero leave.
pub open spec fn spec_advance_queue(s: Seq<ProductionJob>) -> Seq<ProductionJob>
    decreases s.len(),
{
    if s.len() == 0 {
        Seq::empty()
    } else {
        let rest = spec_advance_queue(s.drop_last());
        if s.last().days_remaining > 1 {
            rest.push(
                ProductionJob {
                    recipe_id: s.last().recipe_id,
                    recipe_name: s.last().recipe_name,
                    days_remaining: (s.last().days_remaining - 1) as u32,
                    output_product_id: s.last().output_product_id,
                    output_quantity: s.last().output_quantity,
                },
            )
        } else {
            rest
        }
    }
}

/// The batches that complete today: the jobs whose countdown was one.
pub open spec fn spec_completed(s: Seq<ProductionJob>) -> Seq<ProductionResult>
    decreases s.len(),
{
    if s.len() == 0 {
        Seq::empty()
    } else {
        let rest = spec_completed(s.drop_last());
        if s.last().days_remaining == 1 {
            rest.push(
                ProductionResult {
                    recipe_name: s.last().recipe_name,
                    product_id: s.last().output_product_id,
                    quantity: s.last().output_quantity,
                },
            )
        } else {
            rest
        }
    }
}

/// The units of one product today's completing jobs yield together.
pub open spec fn spec_output_total(s: Seq<ProductionJob>, product_id: u32) -> int
    decreases s.len(),
{
    if s.len() == 0 {
        0
    } else {
        spec_output_total(s.drop_last(), product_id) + if s.last().days_remaining == 1
            && s.last().output_product_id == product_id {
            s.last().output_quantity as int
        } else {
            0
        }
    }
}

/// Today's completions never take units away.
pub proof fn lemma_output_total_nonneg(s: Seq<ProductionJob>, product_id: u32)
    ensures
        spec_output_total(s, product_id) >= 0,
    decreases s.len(),
{
    if s.len() > 0 {
        lemma_output_total_nonneg(s.drop_last(), product_id);
    }
}

/// The total daily salaries of a factory crew, in cents.
pub open spec fn spec_worker_salaries(s: Seq<FactoryWorker>) -> int
    decreases s.len(),
{
    if s.len() == 0 {
        0
    } else {
        spec_worker_salaries(s.drop_last()) + s.last().salary
    }
}

/// A crew's salaries are never negative.
pub proof fn lemma_worker_salaries_nonneg(s: Seq<FactoryWorker>)
    ensures
        spec_worker_salaries(s) >= 0,
    decreases s.len(),
{
    if s.len() > 0 {
        lemma_worker_salaries_nonneg(s.drop_last());
    }
}

/// A manufacturing factory.
pub struct Factory {
    pub id: u32,
    pub name: String,
    pub raw_materials: Vec<LedgerEntry>,
    pub finished_goods: Vec<LedgerEntry>,
    pub production_queue: Vec<ProductionJob>,
    pub workers: Vec<FactoryWorker>,
    pub daily_rent: u64,
    /// The ids of the stores this factory supplies, in connection order.
    pub connected_stores: Vec<u32>,
    /// Whether finished goods flow to the primary store automatically.
    pub auto_transfer: bool,
}

impl Factory {
    /// A valid factory: valid ledgers, at most three workers, never more
    /// queued jobs than slots, every queued countdown positive, and unique
    /// store connections.
    pub open spec fn wf(self) -> bool {
        &&& ledger_wf(self.raw_materials@)
        &&& ledger_wf(self.finished_goods@)
        &&& self.workers@.len() <= 3
        &&& self.production_queue@.len() <= 2 + self.workers@.len()
        &&& forall|i: int|
            0 <= i < self.production_queue@.len() ==> (
            #[trigger] self.production_queue@[i]).days_remaining >= 1
        &&& forall|i: int|
            0 <= i < self.workers@.len() ==> (#[trigger] self.workers@[i]).salary <= MONEY_CAP
        &&& self.daily_rent <= MONEY_CAP
        &&& forall|i: int, j: int|
            0 <= i < j < self.connected_stores@.len() ==> self.connected_stores@[i]
                != self.connected_stores@[j]
    }

    /// Builds an empty factory with the standard rent.
    pub fn new(id: u32, name: &str) -> (r: Factory)
        ensures
            r.id == id,
            r.name@ == name@,
            r.raw_materials@ =~= Seq::<LedgerEntry>::empty(),
            r.finished_goods@ =~= Seq::<LedgerEntry>::empty(),
            r.production_queue@.len() == 0,
            r.workers@.len() == 0,
            r.daily_rent == FACTORY_RENT,
            r.connected_stores@ =~= Seq::<u32>::empty(),
            !r.auto_transfer,
            r.wf(),
    {
        Factory {
            id,
            name: String::from_str(name),
            raw_materials: Vec::new(),
            finished_goods: Vec::new(),
            production_queue: Vec::new(),
            workers: Vec::new(),
            daily_rent: FACTORY_RENT,
            connected_stores: Vec::new(),
            auto_transfer: false,
        }
    }

    /// How many jobs may run at once: two plus one per worker.
    pub open spec fn spec_production_slots(self) -> int {
        2 + self.workers@.len() as int
    }

    /// Returns the number of production slots.
    pub fn production_slots(&self) -> (r: usize)
        requires
            self.wf(),
        ensures
            r == self.spec_production_slots(),
    {
        2 + self.workers.len()
    }

    /// Returns the number of jobs currently in flight.
    pub fn active_jobs(&self) -> (r: usize)
        ensures
            r == self.production_queue@.len(),
    {
        self.production_queue.len()
    }

    /// Returns the number of free slots.
    pub fn available_slots(&self) -> (r: usize)
        requires
            self.wf(),
        ensures
            r == self.spec_production_slots() - self.production_queue@.len(),
    {
        self.production_slots() - self.production_queue.len()
    }

    /// Stores bought raw materials, saturating at the storage cap.
    pub fn add_raw_material(&mut self, product_id: u32, quantity: u64)
        requires
            old(self).wf(),
            quantity <= QTY_CAP,
        ensures
            final(self).wf(),
            ledger_qty(final(self).raw_materials@, product_id) == cap_qty(
                ledger_qty(old(self).raw_materials@, product_id) + quantity,
            ),
            forall|p: u32|
                p != product_id ==> #[trigger] ledger_qty(final(self).raw_materials@, p)
                    == ledger_qty(old(self).raw_materials@, p),
            *final(self) == (Factory { raw_materials: final(self).raw_materials, ..*old(self) }),
    {
        ledger_add(&mut self.raw_materials, product_id, quantity);
    }

    /// Returns the stored quantity of one raw material.
    pub fn get_raw_material(&self, product_id: u32) -> (r: u64)
        requires
            self.wf(),
        ensures
            r == ledger_qty(self.raw_materials@, product_id),
    {
        ledger_get(&self.raw_materials, product_id)
    }

    /// Returns the stored quantity of one finished good.
    pub fn get_finished_good(&self, product_id: u32) -> (r: u64)
        requires
            self.wf(),
        ensures
            r == ledger_qty(self.finished_goods@, product_id),
    {
        ledger_get(&self.finished_goods, product_id)
    }

    /// Whether the raw materials cover one batch of a recipe.
    pub fn has_ingredients(&self, recipe: &Recipe) -> (r: bool)
        requires
            self.wf(),
        ensures
            r == spec_has_ingredients(self.raw_materials@, recipe.ingredients@),
    {
        let mut i: usize = 0;
        while i < recipe.ingredients.len()
            invariant
                i <= recipe.ingredients@.len(),
                self.wf(),
                forall|j: int|
                    0 <= j < i ==> ledger_qty(
                        self.raw_materials@,
                        (#[trigger] recipe.ingredients@[j]).product_id,
                    ) >= recipe.ingredients@[j].quantity,
            decreases recipe.ingredients@.len() - i,
        {
            let have: u64 = ledger_get(&self.raw_materials, recipe.ingredients[i].product_id);
            if have < recipe.ingredients[i].quantity as u64 {
                return false;
            }
            i = i + 1;
        }
        true
    }

    /// Lists the shortfalls that block one batch of a recipe: each short
    /// ingredient with the missing quantity.
    pub fn missing_ingredients(&self, recipe: &Recipe) -> (r: Vec<(u32, u32)>)
        requires
            self.wf(),
        ensures
            r@ == spec_missing(self.raw_materials@, recipe.ingredients@),
    {
        let mut out: Vec<(u32, u32)> = Vec::new();
        let mut i: usize = 0;
        while i < recipe.ingredients.len()
            invariant
                i <= recipe.ingredients@.len(),
                self.wf(),
                out@ == spec_missing(self.raw_materials@, recipe.ingredients@.take(i as int)),
            decreases recipe.ingredients@.len() - i,
        {
            proof {
                assert(recipe.ingredients@.take(i as int + 1).drop_last()
                    =~= recipe.ingredients@.take(i as int));
                assert(recipe.ingredients@.take(i as int + 1).last()
                    == recipe.ingredients@[i as int]);
            }
            let ing = recipe.ingredients[i];
            let have: u64 = ledger_get(&self.raw_materials, ing.product_id);
            if have < ing.quantity as u64 {
                out.push((ing.product_id, ing.quantity - have as u32));
            }
            i = i + 1;
        }
        proof {
            assert(recipe.ingredients@.take(recipe.ingredients@.len() as int)
                =~= recipe.ingredients@);
        }
        out
    }

    /// The factory's total daily cost: rent plus salaries.
    pub open spec fn spec_daily_expenses(self) -> int {
        self.daily_rent + spec_worker_salaries(self.workers@)
    }

    /// Returns the factory's total daily cost.
    pub fn daily_expenses(&self) -> (r: u64)
        requires
            self.wf(),
        ensures
            r == self.spec_daily_expenses(),
            r <= 4 * MONEY_CAP,
    {
        let mut total: u64 = 0;
        let mut i: usize = 0;
        while i < self.workers.len()
            invariant
                i <= self.workers@.len() <= 3,
                forall|j: int|
                    0 <= j < self.workers@.len() ==> (#[trigger] self.workers@[j]).salary
                        <= MONEY_CAP,
                total == spec_worker_salaries(self.workers@.take(i as int)),
                total <= i * MONEY_CAP,
            decreases self.workers@.len() - i,
        {
            proof {
                assert(self.workers@.take(i as int + 1).drop_last() =~= self.workers@.take(
                    i as int,
                ));
                assert(self.workers@.take(i as int + 1).last() == self.workers@[i as int]);
            }
            total = total + self.workers[i].salary;
            i = i + 1;
        }
        proof {
            assert(self.workers@.take(self.workers@.len() as int) =~= self.workers@);
        }
        self.daily_rent + total
    }

    /// Hires a worker; a factory employs at most three.
    pub fn hire_worker(&mut self, name: &str) -> (r: Result<(), CommandError>)
        requires
            old(self).wf(),
        ensures
            final(self).wf(),
            r matches Err(e) ==> e == CommandError::MaxWorkers && old(self).workers@.len() >= 3
                && *final(self) == *old(self),
            r matches Ok(_) ==> {
                &&& old(self).workers@.len() < 3
                &&& final(self).workers@.len() == old(self).workers@.len() + 1
                &&& forall|i: int|
                    0 <= i < old(self).workers@.len() ==> final(self).workers@[i]
                        == old(self).workers@[i]
                &&& final(self).workers@.last().salary == WORKER_SALARY
                &&& final(self).workers@.last().name@ == name@
                &&& *final(self) == (Factory { workers: final(self).workers, ..*old(self) })
            },
    {
        if self.workers.len() >= 3 {
            return Err(CommandError::MaxWorkers);
        }
        self.workers.push(FactoryWorker::new(name));
        Ok(())
    }

    /// Fires the worker at an index, unless losing the slot would leave
    /// more queued jobs than slots.
    pub fn fire_worker(&mut self, index: usize) -> (r: Result<FactoryWorker, CommandError>)
        requires
            old(self).wf(),
        ensures
            final(self).wf(),
            r matches Err(e) ==> *final(self) == *old(self) && (e
                == CommandError::InvalidWorkerIndex && index >= old(self).workers@.len() || e
                == CommandError::WorkersBusy && old(self).production_queue@.len() > 1
                + old(self).workers@.len()),
            r matches Ok(w) ==> {
                &&& index < old(self).workers@.len()
                &&& old(self).production_queue@.len() <= 1 + old(self).workers@.len()
                &&& w == old(self).workers@[index as int]
                &&& final(self).workers@ == old(self).workers@.remove(index as int)
                &&& *final(self) == (Factory { workers: final(self).workers, ..*old(self) })
            },
    {
        if index >= self.workers.len() {
            return Err(CommandError::InvalidWorkerIndex);
        }
        if self.production_queue.len() > 1 + self.workers.len() {
            return Err(CommandError::WorkersBusy);
        }
        let w = self.workers.remove(index);
        Ok(w)
    }

    /// Connects this factory to a store; already-connected stores stay as
    /// they are.
    pub fn connect_store(&mut self, store_id: u32)
        requires
            old(self).wf(),
        ensures
            final(self).wf(),
            final(self).connected_stores@ == if old(self).connected_stores@.contains(store_id) {
                old(self).connected_stores@
            } else {
                old(self).connected_stores@.push(store_id)
            },
            *final(self) == (Factory {
                connected_stores: final(self).connected_stores,
                ..*old(self)
            }),
    {
        let ghost s0 = self.connected_stores@;
        let mut i: usize = 0;
        while i < self.connected_stores.len()
            invariant
                *self == *old(self),
                old(self).wf(),
                s0 == old(self).connected_stores@,
                i <= s0.len(),
                forall|j: int| 0 <= j < i ==> s0[j] != store_id,
            decreases s0.len() - i,
        {
            if self.connected_stores[i] == store_id {
                proof {
                    assert(s0[i as int] == store_id);
                    assert(s0.contains(store_id));
                }
                return ;
            }
            i = i + 1;
        }
        proof {
            if s0.contains(store_id) {
                let j = choose|j: int| 0 <= j < s0.len() && s0[j] == store_id;
                assert(false);
            }
        }
        self.connected_stores.push(store_id);
        proof {
            assert forall|a: int, b: int|
                0 <= a < b < self.connected_stores@.len() implies self.connected_stores@[a]
                != self.connected_stores@[b] by {
                if b == s0.len() {
                    assert(self.connected_stores@[a] == s0[a]);
                    assert(self.connected_stores@[b] == store_id);
                } else {
                    assert(self.connected_stores@[a] == s0[a]);
                    assert(self.connected_stores@[b] == s0[b]);
                }
            }
        }
    }

    /// Disconnects this factory from a store.
    pub fn disconnect_store(&mut self, store_id: u32)
        requires
            old(self).wf(),
        ensures
            final(self).wf(),
            !final(self).connected_stores@.contains(store_id),
            forall|s: u32|
                s != store_id ==> (final(self).connected_stores@.contains(s)
                    == old(self).connected_stores@.contains(s)),
            *final(self) == (Factory {
                connected_stores: final(self).connected_stores,
                ..*old(self)
            }),
    {
        let ghost s0 = self.connected_stores@;
        let mut i: usize = 0;
        while i < self.connected_stores.len()
            invariant
                *self == *old(self),
                old(self).wf(),
                s0 == old(self).connected_stores@,
                i <= s0.len(),
                forall|j: int| 0 <= j < i ==> s0[j] != store_id,
            decreases s0.len() - i,
        {
            if self.connected_stores[i] == store_id {
                self.connected_stores.remove(i);
                proof {
                    assert(self.connected_stores@ =~= s0.remove(i as int));
                    assert forall|a: int, b: int|
                        0 <= a < b < self.connected_stores@.len() implies self.connected_stores@[a]
                        != self.connected_stores@[b] by {
                        let a0 = if a < i {
                            a
                        } else {
                            a + 1
                        };
                        let b0 = if b < i {
                            b
                        } else {
                            b + 1
                        };
                        assert(self.connected_stores@[a] == s0[a0]);
                        assert(self.connected_stores@[b] == s0[b0]);
                    }
                    assert forall|s: u32|
                        s != store_id implies (self.connected_stores@.contains(s) == s0.contains(
                        s,
                    )) by {
                        if s0.contains(s) {
                            let j = choose|j: int| 0 <= j < s0.len() && s0[j] == s;
                            if j < i {
                                assert(s0.remove(i as int)[j] == s);
                            } else {
                                assert(j != i);
                                assert(s0.remove(i as int)[j - 1] == s);
                            }
                        }
                        if self.connected_stores@.contains(s) {
                            let j = choose|j: int|
                                0 <= j < s0.remove(i as int).len() && s0.remove(i as int)[j] == s;
                            if j < i {
                                assert(s0[j] == s);
                            } else {
                                assert(s0[j + 1] == s);
                            }
                        }
                    }
                    assert(!self.connected_stores@.contains(store_id)) by {
                        if self.connected_stores@.contains(store_id) {
                            let j = choose|j: int|
                                0 <= j < s0.remove(i as int).len() && s0.remove(i as int)[j]
                                    == store_id;
                            if j < i {
                                assert(s0[j] == store_id);
                            } else {
                                assert(s0[j + 1] == store_id);
                                assert(j + 1 > i);
                            }
                            assert(false);
                        }
                    }
                }
                return ;
            }
            i = i + 1;
        }
        proof {
            if s0.contains(store_id) {
                let j = choose|j: int| 0 <= j < s0.len() && s0[j] == store_id;
                assert(false);
            }
        }
    }

    /// Whether this factory supplies a store.
    pub fn is_connected_to(&self, store_id: u32) -> (r: bool)
        ensures
            r == self.connected_stores@.contains(store_id),
    {
        let mut i: usize = 0;
        while i < self.connected_stores.len()
            invariant
                i <= self.connected_stores@.len(),
                forall|j: int| 0 <= j < i ==> self.connected_stores@[j] != store_id,
            decreases self.connected_stores@.len() - i,
        {
            if self.connected_stores[i] == store_id {
                return true;
            }
            i = i + 1;
        }
        proof {
            if self.connected_stores@.contains(store_id) {
                let j = choose|j: int|
                    0 <= j < self.connected_stores@.len() && self.connected_stores@[j] == store_id;
                assert(false);
            }
        }
        false
    }

    /// The designated auto-transfer destination: the earliest-connected
    /// store, stable across calls.
    pub fn primary_store(&self) -> (r: Option<u32>)
        ensures
            r == if self.connected_stores@.len() > 0 {
                Some(self.connected_stores@[0])
            } else {
                None::<u32>
            },
    {
        if self.connected_stores.len() > 0 {
            Some(self.connected_stores[0])
        } else {
            None
        }
    }

    /// Flips the auto-transfer switch.
    pub fn toggle_auto_transfer(&mut self)
        ensures
            final(self).auto_transfer == !old(self).auto_transfer,
            *final(self) == (Factory { auto_transfer: final(self).auto_transfer, ..*old(self) }),
    {
        self.auto_transfer = !self.auto_transfer;
    }

    /// How many batches of a recipe could start right now: free slots and
    /// raw materials both limit it.
    pub open spec fn spec_max_producible(self, recipe: Recipe) -> int {
        let slots = self.spec_production_slots() - self.production_queue@.len();
        let materials = spec_material_limit(self.raw_materials@, recipe.ingredients@);
        if slots == 0 {
            0
        } else if materials < slots {
            materials
        } else {
            slots
        }
    }

    /// Returns how many batches of a recipe could start right now.
    pub fn max_producible(&self, recipe: &Recipe) -> (r: u64)
        requires
            self.wf(),
            recipe.wf(),
        ensures
            r == self.spec_max_producible(*recipe),
    {
        let slots: u64 = self.available_slots() as u64;
        if slots == 0 {
            return 0;
        }
        if recipe.ingredients.len() == 0 {
            return 0;
        }
        let mut limit: u64 = 0;
        let mut i: usize = 0;
        while i < recipe.ingredients.len()
            invariant
                i <= recipe.ingredients@.len(),
                self.wf(),
                recipe.wf(),
                recipe.ingredients@.len() > 0,
                i > 0 ==> limit == spec_material_limit(
                    self.raw_materials@,
                    recipe.ingredients@.take(i as int),
                ),
            decreases recipe.ingredients@.len() - i,
        {
            proof {
                assert(recipe.ingredients@.take(i as int + 1).drop_last()
                    =~= recipe.ingredients@.take(i as int));
                assert(recipe.ingredients@.take(i as int + 1).last()
                    == recipe.ingredients@[i as int]);
            }
            let ing = recipe.ingredients[i];
            let have: u64 = ledger_get(&self.raw_materials, ing.product_id);
            let d: u64 = have / ing.quantity as u64;
            if i == 0 || d < limit {
                limit = d;
            }
            i = i + 1;
        }
        proof {
            assert(recipe.ingredients@.take(recipe.ingredients@.len() as int)
                =~= recipe.ingredients@);
        }
        if limit < slots {
            limit
        } else {
            slots
        }
    }

    /// Starts one batch of a recipe: checks a slot and the ingredients,
    /// debits the ingredients atomically and queues the job.
    pub fn start_production(&mut self, recipe: &Recipe) -> (r: Result<(), CommandError>)
        requires
            old(self).wf(),
            recipe.wf(),
        ensures
            final(self).wf(),
            r matches Err(e) ==> *final(self) == *old(self) && (e
                == CommandError::NoProductionSlots && old(self).production_queue@.len()
                == old(self).spec_production_slots() || e
                == CommandError::InsufficientRawMaterials && old(self).production_queue@.len()
                < old(self).spec_production_slots() && !spec_has_ingredients(
                old(self).raw_materials@,
                recipe.ingredients@,
            )),
            r matches Ok(_) ==> {
                &&& old(self).production_queue@.len() < old(self).spec_production_slots()
                &&& spec_has_ingredients(old(self).raw_materials@, recipe.ingredients@)
                &&& final(self).production_queue@.len() == old(self).production_queue@.len() + 1
                &&& forall|i: int|
                    0 <= i < old(self).production_queue@.len() ==> final(self).production_queue@[i]
                        == old(self).production_queue@[i]
                &&& final(self).production_queue@.last() == spec_job_of(*recipe)
                &&& forall|p: u32|
                    #[trigger] ledger_qty(final(self).raw_materials@, p) == ledger_qty(
                        old(self).raw_materials@,
                        p,
                    ) - spec_need(recipe.ingredients@, p)
                &&& final(self).finished_goods == old(self).finished_goods
                &&& final(self).workers == old(self).workers
                &&& final(self).id == old(self).id
                &&& final(self).name == old(self).name
                &&& final(self).daily_rent == old(self).daily_rent
                &&& final(self).connected_stores == old(self).connected_stores
                &&& final(self).auto_transfer == old(self).auto_transfer
            },
    {
        if self.available_slots() == 0 {
            return Err(CommandError::NoProductionSlots);
        }
        if !self.has_ingredients(recipe) {
            return Err(CommandError::InsufficientRawMaterials);
        }
        proof {
            assert forall|k: int| 0 <= k < recipe.ingredients@.len() implies ledger_qty(
                self.raw_materials@,
                (#[trigger] recipe.ingredients@[k]).product_id,
            ) >= 1 * recipe.ingredients@[k].quantity by {
                assert(1 * recipe.ingredients@[k].quantity == recipe.ingredients@[k].quantity);
            }
        }
        consume_batch(&mut self.raw_materials, &recipe.ingredients, 1);
        self.production_queue.push(ProductionJob::new(recipe));
        proof {
            assert forall|p: u32| #[trigger] ledger_qty(self.raw_materials@, p) == ledger_qty(
                old(self).raw_materials@,
                p,
            ) - spec_need(recipe.ingredients@, p) by {
                assert(1 * spec_need(recipe.ingredients@, p) == spec_need(
                    recipe.ingredients@,
                    p,
                ));
            }
        }
        Ok(())
    }

    /// Starts up to the asked number of batches of a recipe: free slots and
    /// raw materials both limit the count actually started. Returns how
    /// many started.
    pub fn start_production_batch(&mut self, recipe: &Recipe, quantity: u32) -> (r: Result<
        u32,
        CommandError,
    >)
        requires
            old(self).wf(),
            recipe.wf(),
        ensures
            final(self).wf(),
            r matches Err(e) ==> *final(self) == *old(self) && (e == CommandError::QuantityZero
                && quantity == 0 || e == CommandError::NoProductionSlots && quantity > 0 && old(
                self,
            ).production_queue@.len() == old(self).spec_production_slots() || e
                == CommandError::InsufficientRawMaterials && quantity > 0 && old(
                self,
            ).production_queue@.len() < old(self).spec_production_slots() && old(
                self,
            ).spec_max_producible(*recipe) == 0),
            r matches Ok(n) ==> {
                let maxp = old(self).spec_max_producible(*recipe);
                &&& quantity > 0
                &&& maxp > 0
                &&& n == if quantity as int <= maxp {
                    quantity as int
                } else {
                    maxp
                }
                &&& final(self).production_queue@.len() == old(self).production_queue@.len()
                    + n as int
                &&& forall|i: int|
                    0 <= i < old(self).production_queue@.len() ==> final(self).production_queue@[i]
                        == old(self).production_queue@[i]
                &&& forall|i: int|
                    old(self).production_queue@.len() <= i < final(self).production_queue@.len()
                        ==> final(self).production_queue@[i] == spec_job_of(*recipe)
                &&& forall|p: u32|
                    #[trigger] ledger_qty(final(self).raw_materials@, p) == ledger_qty(
                        old(self).raw_materials@,
                        p,
                    ) - n * spec_need(recipe.ingredients@, p)
                &&& final(self).finished_goods == old(self).finished_goods
                &&& final(self).workers == old(self).workers
                &&& final(self).id == old(self).id
                &&& final(self).name == old(self).name
                &&& final(self).daily_rent == old(self).daily_rent
                &&& final(self).connected_stores == old(self).connected_stores
                &&& final(self).auto_transfer == old(self).auto_transfer
            },
    {
        if quantity == 0 {
            return Err(CommandError::QuantityZero);
        }
        let maxp: u64 = self.max_producible(recipe);
        if maxp == 0 {
            if self.available_slots() == 0 {
                return Err(CommandError::NoProductionSlots);
            } else {
                return Err(CommandError::InsufficientRawMaterials);
            }
        }
        let actual: u64 = if quantity as u64 <= maxp {
            quantity as u64
        } else {
            maxp
        };
        proof {
            assert(recipe.ingredients@.len() > 0) by {
                if recipe.ingredients@.len() == 0 {
                    assert(spec_material_limit(self.raw_materials@, recipe.ingredients@) == 0);
                }
            }
            lemma_material_limit_covers(self.raw_materials@, recipe.ingredients@, actual as int);
        }
        consume_batch(&mut self.raw_materials, &recipe.ingredients, actual);
        let ghost q0 = self.production_queue@;
        let ghost raw1 = self.raw_materials@;
        let mut t: u64 = 0;
        while t < actual
            invariant
                t <= actual,
                old(self).wf(),
                recipe.wf(),
                actual <= old(self).spec_production_slots() - q0.len(),
                q0 == old(self).production_queue@,
                self.production_queue@.len() == q0.len() + t,
                forall|i: int| 0 <= i < q0.len() ==> self.production_queue@[i] == q0[i],
                forall|i: int|
                    q0.len() <= i < self.production_queue@.len() ==> self.production_queue@[i]
                        == spec_job_of(*recipe),
                forall|i: int|
                    0 <= i < self.production_queue@.len() ==> (
                    #[trigger] self.production_queue@[i]).days_remaining >= 1,
                self.workers == old(self).workers,
                self.raw_materials@ == raw1,
                ledger_wf(raw1),
                forall|p: u32|
                    #[trigger] ledger_qty(raw1, p) == ledger_qty(old(self).raw_materials@, p)
                        - actual * spec_need(recipe.ingredients@, p),
                forall|p: u32|
                    #[trigger] ledger_has(raw1, p) == ledger_has(old(self).raw_materials@, p),
                self.finished_goods == old(self).finished_goods,
                self.id == old(self).id,
                self.name == old(self).name,
                self.daily_rent == old(self).daily_rent,
                self.connected_stores == old(self).connected_stores,
                self.auto_transfer == old(self).auto_transfer,
            decreases actual - t,
        {
            self.production_queue.push(ProductionJob::new(recipe));
            t = t + 1;
        }
        Ok(actual as u32)
    }

    /// Advances every job one day: each countdown falls by one, and the
    /// jobs that reach zero convert into finished goods and are reported.
    pub fn advance_production(&mut self) -> (r: Vec<ProductionResult>)
        requires
            old(self).wf(),
        ensures
            final(self).wf(),
            final(self).production_queue@ == spec_advance_queue(old(self).production_queue@),
            r@ == spec_completed(old(self).production_queue@),
            forall|p: u32|
                #[trigger] ledger_qty(final(self).finished_goods@, p) == cap_qty(
                    ledger_qty(old(self).finished_goods@, p) + spec_output_total(
                        old(self).production_queue@,
                        p,
                    ),
                ),
            final(self).raw_materials == old(self).raw_materials,
            final(self).workers == old(self).workers,
            final(self).id == old(self).id,
            final(self).name == old(self).name,
            final(self).daily_rent == old(self).daily_rent,
            final(self).connected_stores == old(self).connected_stores,
            final(self).auto_transfer == old(self).auto_transfer,
    {
        let ghost q0 = self.production_queue@;
        let ghost fin0 = self.finished_goods@;
        proof {
            assert(q0.take(0) =~= Seq::<ProductionJob>::empty());
            assert forall|p: u32| #[trigger] ledger_qty(self.finished_goods@, p) == cap_qty(
                ledger_qty(fin0, p) + spec_output_total(q0.take(0), p),
            ) by {
                crate::ledger::lemma_ledger_qty_bounds(fin0, p);
            }
        }
        let mut completed: Vec<ProductionResult> = Vec::new();
        let mut new_queue: Vec<ProductionJob> = Vec::new();
        let mut k: usize = 0;
        while k < self.production_queue.len()
            invariant
                k <= q0.len(),
                old(self).wf(),
                q0 == old(self).production_queue@,
                fin0 == old(self).finished_goods@,
                self.production_queue == old(self).production_queue,
                self.raw_materials == old(self).raw_materials,
                self.workers == old(self).workers,
                self.id == old(self).id,
                self.name == old(self).name,
                self.daily_rent == old(self).daily_rent,
                self.connected_stores == old(self).connected_stores,
                self.auto_transfer == old(self).auto_transfer,
                ledger_wf(self.finished_goods@),
                new_queue@ == spec_advance_queue(q0.take(k as int)),
                completed@ == spec_completed(q0.take(k as int)),
                new_queue@.len() <= k,
                forall|i: int|
                    0 <= i < new_queue@.len() ==> (#[trigger] new_queue@[i]).days_remaining >= 1,
                forall|p: u32|
                    #[trigger] ledger_qty(self.finished_goods@, p) == cap_qty(
                        ledger_qty(fin0, p) + spec_output_total(q0.take(k as int), p),
                    ),
            decreases q0.len() - k,
        {
            proof {
                assert(q0.take(k as int + 1).drop_last() =~= q0.take(k as int));
                assert(q0.take(k as int + 1).last() == q0[k as int]);
            }
            let days: u32 = self.production_queue[k].days_remaining;
            if days == 1 {
                let name: String = self.production_queue[k].recipe_name.clone();
                let pid: u32 = self.production_queue[k].output_product_id;
                let oq: u32 = self.production_queue[k].output_quantity;
                let ghost fin_before = self.finished_goods@;
                ledger_add(&mut self.finished_goods, pid, oq as u64);
                completed.push(ProductionResult { recipe_name: name, product_id: pid, quantity: oq });
                proof {
                    lemma_output_total_nonneg(q0.take(k as int), pid);
                    assert forall|p: u32| #[trigger] ledger_qty(self.finished_goods@, p)
                        == cap_qty(
                        ledger_qty(fin0, p) + spec_output_total(q0.take(k as int + 1), p),
                    ) by {
                        lemma_output_total_nonneg(q0.take(k as int), p);
                        crate::ledger::lemma_ledger_qty_bounds(fin0, p);
                        if p == pid {
                            assert(ledger_qty(self.finished_goods@, p) == cap_qty(
                                ledger_qty(fin_before, p) + oq,
                            ));
                        } else {
                            assert(ledger_qty(self.finished_goods@, p) == ledger_qty(
                                fin_before,
                                p,
                            ));
                        }
                    }
                }
            } else {
                let name: String = self.production_queue[k].recipe_name.clone();
                let job = ProductionJob {
                    recipe_id: self.production_queue[k].recipe_id,
                    recipe_name: name,
                    days_remaining: days - 1,
                    output_product_id: self.production_queue[k].output_product_id,
                    output_quantity: self.production_queue[k].output_quantity,
                };
                new_queue.push(job);
            }
            k = k + 1;
        }
        proof {
            assert(q0.take(q0.len() as int) =~= q0);
        }
        self.production_queue = new_queue;
        completed
    }

    /// Removes up to the asked quantity of a finished good for transfer;
    /// fails only when none is on hand. Returns the quantity taken.
    pub fn take_finished_goods(&mut self, product_id: u32, quantity: u64) -> (r: Result<
        u64,
        CommandError,
    >)
        requires
            old(self).wf(),
        ensures
            final(self).wf(),
            r matches Err(e) ==> e == CommandError::NoFinishedGoods && ledger_qty(
                old(self).finished_goods@,
                product_id,
            ) == 0 && *final(self) == *old(self),
            r matches Ok(n) ==> {
                let avail = ledger_qty(old(self).finished_goods@, product_id);
                &&& avail > 0
                &&& n == if quantity as int <= avail {
                    quantity as int
                } else {
                    avail
                }
                &&& ledger_qty(final(self).finished_goods@, product_id) == avail - n
                &&& forall|p: u32|
                    p != product_id ==> #[trigger] ledger_qty(final(self).finished_goods@, p)
                        == ledger_qty(old(self).finished_goods@, p)
                &&& final(self).raw_materials == old(self).raw_materials
                &&& final(self).production_queue == old(self).production_queue
                &&& final(self).workers == old(self).workers
                &&& final(self).id == old(self).id
                &&& final(self).name == old(self).name
                &&& final(self).daily_rent == old(self).daily_rent
                &&& final(self).connected_stores == old(self).connected_stores
                &&& final(self).auto_transfer == old(self).auto_transfer
            },
    {
        let available: u64 = ledger_get(&self.finished_goods, product_id);
        if available == 0 {
            return Err(CommandError::NoFinishedGoods);
        }
        let actual: u64 = if quantity <= available {
            quantity
        } else {
            available
        };
        ledger_take(&mut self.finished_goods, product_id, actual);
        Ok(actual)
    }

    /// Returns the total units of raw materials in storage, capped.
    pub fn total_raw_materials(&self) -> (r: u64)
        requires
            self.wf(),
        ensures
            r == cap_qty(crate::ledger::ledger_units(self.raw_materials@)),
    {
        crate::ledger::ledger_total_units(&self.raw_materials)
    }

    /// Returns the total units of finished goods in storage, capped.
    pub fn total_finished_goods(&self) -> (r: u64)
        requires
            self.wf(),
        ensures
            r == cap_qty(crate::ledger::ledger_units(self.finished_goods@)),
    {
        crate::ledger::ledger_total_units(&self.finished_goods)
    }
}

/// For a count within the material limit, the stock covers that many
/// batches of every ingredient.
proof fn lemma_material_limit_covers(raw: Seq<LedgerEntry>, ings: Seq<RecipeIngredient>, t: int)
    requires
        ings.len() > 0,
        forall|i: int| 0 <= i < ings.len() ==> (#[trigger] ings[i]).quantity >= 1,
        0 <= t <= spec_material_limit(raw, ings),
    ensures
        forall|k: int|
            0 <= k < ings.len() ==> t * (#[trigger] ings[k]).quantity <= ledger_qty(
                raw,
                ings[k].product_id,
            ),
    decreases ings.len(),
{
    let last = ings.last();
    let d = ledger_qty(raw, last.product_id) / last.quantity as int;
    assert(t <= d);
    assert(t * last.quantity <= ledger_qty(raw, last.product_id)) by (nonlinear_arith)
        requires
            0 <= t <= ledger_qty(raw, last.product_id) / last.quantity as int,
            last.quantity >= 1,
    ;
    if ings.len() > 1 {
        assert(forall|i: int|
            0 <= i < ings.drop_last().len() ==> (#[trigger] ings.drop_last()[i]).quantity >= 1)
            by {
            assert(forall|i: int|
                0 <= i < ings.drop_last().len() ==> ings.drop_last()[i] == ings[i]);
        }
        lemma_material_limit_covers(raw, ings.drop_last(), t);
        assert forall|k: int| 0 <= k < ings.len() implies t * (#[trigger] ings[k]).quantity
            <= ledger_qty(raw, ings[k].product_id) by {
            if k < ings.len() - 1 {
                assert(ings.drop_last()[k] == ings[k]);
            }
        }
    }
}

/// Debits a recipe's ingredient list a given number of times; no other
/// product changes.
fn consume_batch(raw: &mut Vec<LedgerEntry>, ings: &Vec<RecipeIngredient>, times: u64)
    requires
        ledger_wf(old(raw)@),
        forall|i: int, j: int|
            0 <= i < j < ings@.len() ==> (#[trigger] ings@[i]).product_id != (
            #[trigger] ings@[j]).product_id,
        forall|k: int|
            0 <= k < ings@.len() ==> ledger_qty(old(raw)@, (#[trigger] ings@[k]).product_id)
                >= times * ings@[k].quantity,
    ensures
        ledger_wf(final(raw)@),
        forall|p: u32|
            #[trigger] ledger_qty(final(raw)@, p) == ledger_qty(old(raw)@, p) - times * spec_need(
                ings@,
                p,
            ),
        forall|p: u32| #[trigger] ledger_has(final(raw)@, p) == ledger_has(old(raw)@, p),
{
    let ghost r0 = old(raw)@;
    let mut k: usize = 0;
    proof {
        assert forall|p: u32| #[trigger] ledger_qty(raw@, p) == ledger_qty(r0, p) - times
            * spec_need(ings@.take(0), p) by {
            assert(ings@.take(0) =~= Seq::<RecipeIngredient>::empty());
            assert(spec_need(ings@.take(0), p) == 0);
            assert(times * 0 == 0) by (nonlinear_arith);
        }
    }
    while k < ings.len()
        invariant
            k <= ings@.len(),
            r0 == old(raw)@,
            ledger_wf(r0),
            ledger_wf(raw@),
            forall|i: int, j: int|
                0 <= i < j < ings@.len() ==> (#[trigger] ings@[i]).product_id != (
                #[trigger] ings@[j]).product_id,
            forall|m: int|
                0 <= m < ings@.len() ==> ledger_qty(r0, (#[trigger] ings@[m]).product_id) >= times
                    * ings@[m].quantity,
            forall|p: u32|
                #[trigger] ledger_qty(raw@, p) == ledger_qty(r0, p) - times * spec_need(
                    ings@.take(k as int),
                    p,
                ),
            forall|p: u32| #[trigger] ledger_has(raw@, p) == ledger_has(r0, p),
        decreases ings@.len() - k,
    {
        let ing = ings[k];
        proof {
            assert(forall|i: int|
                0 <= i < k ==> (#[trigger] ings@.take(k as int)[i]).product_id
                    != ing.product_id);
            lemma_need_absent(ings@.take(k as int), ing.product_id);
            assert(ledger_qty(raw@, ing.product_id) == ledger_qty(r0, ing.product_id) - times
                * 0);
            assert(times * 0 == 0) by (nonlinear_arith);
            crate::ledger::lemma_ledger_qty_bounds(r0, ing.product_id);
            assert(ledger_qty(r0, ing.product_id) >= times * ing.quantity);
            assert(times * ing.quantity <= QTY_CAP);
        }
        let amount: u64 = times * ing.quantity as u64;
        ledger_take(raw, ing.product_id, amount);
        proof {
            assert(ings@.take(k as int + 1).drop_last() =~= ings@.take(k as int));
            assert(ings@.take(k as int + 1).last() == ings@[k as int]);
            assert forall|p: u32| #[trigger] ledger_qty(raw@, p) == ledger_qty(r0, p) - times
                * spec_need(ings@.take(k as int + 1), p) by {
                if p == ing.product_id {
                    assert(spec_need(ings@.take(k as int + 1), p) == spec_need(
                        ings@.take(k as int),
                        p,
                    ) + ing.quantity);
                    assert(times * (spec_need(ings@.take(k as int), p) + ing.quantity) == times
                        * spec_need(ings@.take(k as int), p) + times * ing.quantity)
                        by (nonlinear_arith);
                } else {
                    assert(spec_need(ings@.take(k as int + 1), p) == spec_need(
                        ings@.take(k as int),
                        p,
                    ));
                }
            }
        }
        k = k + 1;
    }
    proof {
        assert(ings@.take(ings@.len() as int) =~= ings@);
    }
}

/// The shortfalls that block one batch: the short ingredients, each with
/// the missing quantity.
pub open spec fn spec_missing(raw: Seq<LedgerEntry>, ings: Seq<RecipeIngredient>) -> Seq<
    (u32, u32),
>
    decreases ings.len(),
{
    if ings.len() == 0 {
        Seq::empty()
    } else {
        let rest = spec_missing(raw, ings.drop_last());
        let have = ledger_qty(raw, ings.last().product_id);
        if have < ings.last().quantity {
            rest.push((ings.last().product_id, (ings.last().quantity - have) as u32))
        } else {
            rest
        }
    }
}

} // verus!
