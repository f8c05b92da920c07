//! The immutable manufacturing recipes: what a factory consumes and
//! produces, and how many days a job takes.

use vstd::prelude::*;
use vstd::string::StringExecFns;
use crate::economy::{spec_base_price, Market};
use crate::money::{add_amount, cap_amount, mul_price_qty, MONEY_CAP};

verus! {

/// One ingredient line of a recipe.
#[derive(Debug, Clone, Copy, PartialEq, Eq, Structural)]
pub struct RecipeIngredient {
    pub product_id: u32,
    pub quantity: u32,
}

impl RecipeIngredient {
    /// Creates an ingredient line.
    pub fn new(product_id: u32, quantity: u32) -> (r: RecipeIngredient)
        ensures
            r.product_id == product_id,
            r.quantity == quantity,
    {
        RecipeIngredient { product_id, quantity }
    }
}

/// A manufacturing recipe.
pub struct Recipe {
    pub id: u32,
    pub name: String,
    pub ingredients: Vec<RecipeIngredient>,
    pub output_product_id: u32,
    pub output_quantity: u32,
    pub production_days: u32,
}

impl Recipe {
    /// A valid recipe takes at least a day, yields at least one unit, asks a
    /// positive quantity of each ingredient, and lists each ingredient once.
    pub open spec fn wf(self) -> bool {
        &&& self.production_days >= 1
        &&& self.output_quantity >= 1
        &&& forall|i: int|
            0 <= i < self.ingredients@.len() ==> (#[trigger] self.ingredients@[i]).quantity >= 1
        &&& forall|i: int, j: int|
            0 <= i < j < self.ingredients@.len() ==> (#[trigger] self.ingredients@[i]).product_id
                != (#[trigger] self.ingredients@[j]).product_id
    }

    /// Creates a recipe.
    pub fn new(
        id: u32,
        name: &str,
        ingredients: Vec<RecipeIngredient>,
        output_product_id: u32,
        output_quantity: u32,
        production_days: u32,
    ) -> (r: Recipe)
        ensures
            r.id == id,
            r.name@ == name@,
            r.ingredients == ingredients,
            r.output_product_id == output_product_id,
            r.output_quantity == output_quantity,
            r.production_days == production_days,
    {
        Recipe {
            id,
            name: String::from_str(name),
            ingredients,
            output_product_id,
            output_quantity,
            production_days,
        }
    }
}

/// What one ingredient line costs at today's wholesale prices, in cents;
/// an unlisted product costs nothing.
pub open spec fn spec_ingredient_cost(ing: RecipeIngredient, market: Market) -> int {
    match spec_base_price(market.wholesale_prices@, ing.product_id) {
        Some(b) => cap_amount(
            cap_amount(b * market.economic_state.spec_price_multiplier_milli() / 1000)
                * ing.quantity,
        ),
        None => 0,
    }
}

/// What a whole ingredient list costs at today's wholesale prices, before
/// capping.
pub open spec fn spec_material_cost(ings: Seq<RecipeIngredient>, market: Market) -> int
    decreases ings.len(),
{
    if ings.len() == 0 {
        0
    } else {
        spec_material_cost(ings.drop_last(), market) + spec_ingredient_cost(ings.last(), market)
    }
}

/// Material costs are never negative.
proof fn lemma_material_cost_nonneg(ings: Seq<RecipeIngredient>, market: Market)
    ensures
        spec_material_cost(ings, market) >= 0,
    decreases ings.len(),
{
    if ings.len() > 0 {
        lemma_material_cost_nonneg(ings.drop_last(), market);
        match spec_base_price(market.wholesale_prices@, ings.last().product_id) {
            Some(b) => {
                assert(cap_amount(b * market.economic_state.spec_price_multiplier_milli() / 1000)
                    * ings.last().quantity >= 0) by (nonlinear_arith)
                    requires
                        cap_amount(
                            b * market.economic_state.spec_price_multiplier_milli() / 1000,
                        ) >= 0,
                        ings.last().quantity >= 0,
                ;
            },
            None => {},
        }
    }
}

impl Recipe {
    /// Sums what one batch of this recipe costs at today's wholesale
    /// prices, capped; ingredients the market does not list cost nothing.
    pub fn material_cost(&self, market: &Market) -> (r: u64)
        requires
            market.wf(),
        ensures
            r == cap_amount(spec_material_cost(self.ingredients@, *market)),
    {
        let ghost ings = self.ingredients@;
        let mut total: u64 = 0;
        let mut i: usize = 0;
        while i < self.ingredients.len()
            invariant
                i <= ings.len(),
                ings == self.ingredients@,
                market.wf(),
                total == cap_amount(spec_material_cost(ings.take(i as int), *market)),
                spec_material_cost(ings.take(i as int), *market) >= 0,
            decreases ings.len() - i,
        {
            proof {
                assert(ings.take(i as int + 1).drop_last() =~= ings.take(i as int));
                assert(ings.take(i as int + 1).last() == ings[i as int]);
                lemma_material_cost_nonneg(ings.take(i as int), *market);
                match spec_base_price(market.wholesale_prices@, ings[i as int].product_id) {
                    Some(b) => {
                        assert(cap_amount(
                            b * market.economic_state.spec_price_multiplier_milli() / 1000,
                        ) * ings[i as int].quantity >= 0) by (nonlinear_arith)
                            requires
                                cap_amount(
                                    b * market.economic_state.spec_price_multiplier_milli()
                                        / 1000,
                                ) >= 0,
                                ings[i as int].quantity >= 0,
                        ;
                    },
                    None => {},
                }
            }
            let ing = self.ingredients[i];
            let line: u64 = match market.get_wholesale_price(ing.product_id) {
                Some(w) => mul_price_qty(w, ing.quantity as u64),
                None => 0,
            };
            total = add_amount(total, line);
            i = i + 1;
        }
        proof {
            assert(ings.take(ings.len() as int) =~= ings);
        }
        total
    }
}

/// A well-formed recipe book: every recipe valid, ids unique.
pub open spec fn recipes_wf(s: Seq<Recipe>) -> bool {
    &&& forall|i: int| 0 <= i < s.len() ==> (#[trigger] s[i]).wf()
    &&& forall|i: int, j: int|
        0 <= i < j < s.len() ==> (#[trigger] s[i]).id != (#[trigger] s[j]).id
}

/// The fixed recipe book a new game starts with. Every ingredient is a raw
/// material (ids 11 through 15) and every output a manufactured good.
pub fn default_recipes() -> (r: Vec<Recipe>)
    ensures
        r@.len() == 6,
        forall|i: int| 0 <= i < 6 ==> (#[trigger] r@[i]).id == i + 1,
        recipes_wf(r@),
        r@[0].output_product_id == 16 && r@[0].output_quantity == 1 && r@[0].production_days == 1,
        r@[1].output_product_id == 17 && r@[1].output_quantity == 1 && r@[1].production_days == 2,
        r@[2].output_product_id == 18 && r@[2].output_quantity == 1 && r@[2].production_days == 1,
        r@[3].output_product_id == 19 && r@[3].output_quantity == 1 && r@[3].production_days == 2,
        r@[4].output_product_id == 20 && r@[4].output_quantity == 1 && r@[4].production_days == 3,
        r@[5].output_product_id == 21 && r@[5].output_quantity == 1 && r@[5].production_days == 3,
        r@[0].ingredients@ == seq![RecipeIngredient { product_id: 11u32, quantity: 2u32 }],
        r@[1].ingredients@ == seq![
            RecipeIngredient { product_id: 12u32, quantity: 2u32 },
            RecipeIngredient { product_id: 11u32, quantity: 1u32 },
        ],
        r@[2].ingredients@ == seq![RecipeIngredient { product_id: 13u32, quantity: 3u32 }],
        r@[3].ingredients@ == seq![
            RecipeIngredient { product_id: 12u32, quantity: 1u32 },
            RecipeIngredient { product_id: 15u32, quantity: 1u32 },
        ],
        r@[4].ingredients@ == seq![
            RecipeIngredient { product_id: 15u32, quantity: 2u32 },
            RecipeIngredient { product_id: 14u32, quantity: 1u32 },
        ],
        r@[5].ingredients@ == seq![
            RecipeIngredient { product_id: 15u32, quantity: 3u32 },
            RecipeIngredient { product_id: 12u32, quantity: 1u32 },
            RecipeIngredient { product_id: 14u32, quantity: 1u32 },
        ],
        forall|i: int, j: int|
            0 <= i < 6 && 0 <= j < (#[trigger] r@[i]).ingredients@.len() ==> 11 <= (
            #[trigger] r@[i].ingredients@[j]).product_id <= 15,
{
    let mut v: Vec<Recipe> = Vec::new();

    let mut chair: Vec<RecipeIngredient> = Vec::new();
    chair.push(RecipeIngredient::new(11, 2));
    proof {
        assert(chair@ =~= seq![RecipeIngredient { product_id: 11u32, quantity: 2u32 }]);
    }
    v.push(Recipe::new(1, "Wooden Chair", chair, 16, 1, 1));

    let mut table: Vec<RecipeIngredient> = Vec::new();
    table.push(RecipeIngredient::new(12, 2));
    table.push(RecipeIngredient::new(11, 1));
    proof {
        assert(table@ =~= seq![
            RecipeIngredient { product_id: 12u32, quantity: 2u32 },
            RecipeIngredient { product_id: 11u32, quantity: 1u32 },
        ]);
    }
    v.push(Recipe::new(2, "Steel Table", table, 17, 1, 2));

    let mut jacket: Vec<RecipeIngredient> = Vec::new();
    jacket.push(RecipeIngredient::new(13, 3));
    proof {
        assert(jacket@ =~= seq![RecipeIngredient { product_id: 13u32, quantity: 3u32 }]);
    }
    v.push(Recipe::new(3, "Designer Jacket", jacket, 18, 1, 1));

    let mut blender: Vec<RecipeIngredient> = Vec::new();
    blender.push(RecipeIngredient::new(12, 1));
    blender.push(RecipeIngredient::new(15, 1));
    proof {
        assert(blender@ =~= seq![
            RecipeIngredient { product_id: 12u32, quantity: 1u32 },
            RecipeIngredient { product_id: 15u32, quantity: 1u32 },
        ]);
    }
    v.push(Recipe::new(4, "Blender", blender, 19, 1, 2));

    let mut phone: Vec<RecipeIngredient> = Vec::new();
    phone.push(RecipeIngredient::new(15, 2));
    phone.push(RecipeIngredient::new(14, 1));
    proof {
        assert(phone@ =~= seq![
            RecipeIngredient { product_id: 15u32, quantity: 2u32 },
            RecipeIngredient { product_id: 14u32, quantity: 1u32 },
        ]);
    }
    v.push(Recipe::new(5, "Smartphone", phone, 20, 1, 3));

    let mut laptop: Vec<RecipeIngredient> = Vec::new();
    laptop.push(RecipeIngredient::new(15, 3));
    laptop.push(RecipeIngredient::new(12, 1));
    laptop.push(RecipeIngredient::new(14, 1));
    proof {
        assert(laptop@ =~= seq![
            RecipeIngredient { product_id: 15u32, quantity: 3u32 },
            RecipeIngredient { product_id: 12u32, quantity: 1u32 },
            RecipeIngredient { product_id: 14u32, quantity: 1u32 },
        ]);
    }
    v.push(Recipe::new(6, "Laptop", laptop, 21, 1, 3));

    v
}

} // verus!
