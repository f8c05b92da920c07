//! The immutable product catalog: categories, product kinds and the fixed
//! set of products a game starts with. Prices are in cents.

use vstd::prelude::*;
use vstd::string::StringExecFns;
use crate::money::MONEY_CAP;

verus! {

/// What a product may be used for.
#[derive(Debug, Clone, Copy, PartialEq, Eq, Structural)]
pub enum ProductType {
    RawMaterial,
    RetailGood,
    ManufacturedGood,
}

impl ProductType {
    /// Whether a product of this kind can be sold in stores.
    pub fn can_sell_retail(&self) -> (r: bool)
        ensures
            r == (*self == ProductType::RetailGood || *self == ProductType::ManufacturedGood),
    {
        matches!(self, ProductType::RetailGood | ProductType::ManufacturedGood)
    }

    /// Whether a product of this kind can feed a factory recipe.
    pub fn is_raw_material(&self) -> (r: bool)
        ensures
            r == (*self == ProductType::RawMaterial),
    {
        matches!(self, ProductType::RawMaterial)
    }
}

/// A retail category; each carries a demand weight.
#[derive(Debug, Clone, Copy, PartialEq, Eq, Structural)]
pub enum Category {
    Food,
    Electronics,
    Clothing,
    RawMaterial,
    Furniture,
}

impl Category {
    /// The category's retail demand weight in milli-units; raw materials
    /// cannot be sold retail and weigh zero.
    pub open spec fn spec_demand_weight_milli(self) -> int {
        match self {
            Category::Food => 1200,
            Category::Electronics => 800,
            Category::Clothing => 1000,
            Category::Furniture => 600,
            Category::RawMaterial => 0,
        }
    }

    /// Returns the category's demand weight in milli-units.
    pub fn demand_weight_milli(&self) -> (r: u64)
        ensures
            r == self.spec_demand_weight_milli(),
            r <= 1200,
    {
        match self {
            Category::Food => 1200,
            Category::Electronics => 800,
            Category::Clothing => 1000,
            Category::Furniture => 600,
            Category::RawMaterial => 0,
        }
    }

    /// The categories whose goods can be sold retail.
    pub fn retail_categories() -> (r: Vec<Category>)
        ensures
            r@ == seq![
                Category::Food,
                Category::Electronics,
                Category::Clothing,
                Category::Furniture,
            ],
    {
        let mut v: Vec<Category> = Vec::new();
        v.push(Category::Food);
        v.push(Category::Electronics);
        v.push(Category::Clothing);
        v.push(Category::Furniture);
        proof {
            assert(v@ =~= seq![
                Category::Food,
                Category::Electronics,
                Category::Clothing,
                Category::Furniture,
            ]);
        }
        v
    }

    /// Every category.
    pub fn all() -> (r: Vec<Category>)
        ensures
            r@ == seq![
                Category::Food,
                Category::Electronics,
                Category::Clothing,
                Category::RawMaterial,
                Category::Furniture,
            ],
    {
        let mut v: Vec<Category> = Vec::new();
        v.push(Category::Food);
        v.push(Category::Electronics);
        v.push(Category::Clothing);
        v.push(Category::RawMaterial);
        v.push(Category::Furniture);
        proof {
            assert(v@ =~= seq![
                Category::Food,
                Category::Electronics,
                Category::Clothing,
                Category::RawMaterial,
                Category::Furniture,
            ]);
        }
        v
    }

    /// The category's display name.
    pub fn name(&self) -> (r: &'static str)
        ensures
            r@ == self.spec_name(),
    {
        match self {
            Category::Food => "Food",
            Category::Electronics => "Electronics",
            Category::Clothing => "Clothing",
            Category::RawMaterial => "Raw Material",
            Category::Furniture => "Furniture",
        }
    }

    /// The display name as a character sequence.
    pub open spec fn spec_name(self) -> Seq<char> {
        match self {
            Category::Food => "Food"@,
            Category::Electronics => "Electronics"@,
            Category::Clothing => "Clothing"@,
            Category::RawMaterial => "Raw Material"@,
            Category::Furniture => "Furniture"@,
        }
    }
}

/// A catalog entry: something that can be bought, made or sold.
pub struct Product {
    pub id: u32,
    pub name: String,
    pub base_price: u64,
    pub category: Category,
    pub product_type: ProductType,
}

impl Product {
    /// A valid catalog entry has a positive base price within the money cap.
    pub open spec fn wf(self) -> bool {
        1 <= self.base_price <= MONEY_CAP
    }

    /// Creates a retail product.
    pub fn new(id: u32, name: &str, base_price: u64, category: Category) -> (r: Product)
        ensures
            r.id == id,
            r.name@ == name@,
            r.base_price == base_price,
            r.category == category,
            r.product_type == ProductType::RetailGood,
    {
        Product {
            id,
            name: String::from_str(name),
            base_price,
            category,
            product_type: ProductType::RetailGood,
        }
    }

    /// Creates a product of a given kind.
    pub fn new_with_type(
        id: u32,
        name: &str,
        base_price: u64,
        category: Category,
        product_type: ProductType,
    ) -> (r: Product)
        ensures
            r.id == id,
            r.name@ == name@,
            r.base_price == base_price,
            r.category == category,
            r.product_type == product_type,
    {
        Product { id, name: String::from_str(name), base_price, category, product_type }
    }
}

/// A well-formed catalog: every entry valid, ids unique.
pub open spec fn products_wf(s: Seq<Product>) -> bool {
    &&& forall|i: int| 0 <= i < s.len() ==> (#[trigger] s[i]).wf()
    &&& forall|i: int, j: int|
        0 <= i < j < s.len() ==> (#[trigger] s[i]).id != (#[trigger] s[j]).id
}

/// Lists the standard products that stores can sell: the retail goods
/// and the manufactured goods of the fixed catalog, in catalog order.
pub fn retail_products() -> (r: Vec<Product>)
    ensures
        r@.len() == 16,
        products_wf(r@),
        forall|i: int|
            0 <= i < 16 ==> (#[trigger] r@[i]).product_type == ProductType::RetailGood || r@[
                i
            ].product_type == ProductType::ManufacturedGood,
        forall|i: int| 0 <= i < 10 ==> (#[trigger] r@[i]).id == i + 1,
        forall|i: int| 10 <= i < 16 ==> (#[trigger] r@[i]).id == i + 6,
{
    let all = default_products();
    let mut out: Vec<Product> = Vec::new();
    let mut i: usize = 0;
    while i < 10
        invariant
            i <= 10,
            all@.len() == 21,
            forall|k: int| 0 <= k < 21 ==> (#[trigger] all@[k]).id == k + 1,
            products_wf(all@),
            forall|k: int|
                0 <= k < 10 ==> (#[trigger] all@[k]).product_type == ProductType::RetailGood,
            forall|k: int|
                15 <= k < 21 ==> (#[trigger] all@[k]).product_type
                    == ProductType::ManufacturedGood,
            out@.len() == i,
            forall|k: int| 0 <= k < i ==> out@[k] == all@[k],
        decreases 10 - i,
    {
        out.push(clone_product(&all, i));
        i = i + 1;
    }
    let mut j: usize = 15;
    while j < 21
        invariant
            15 <= j <= 21,
            all@.len() == 21,
            forall|k: int| 0 <= k < 21 ==> (#[trigger] all@[k]).id == k + 1,
            products_wf(all@),
            forall|k: int|
                0 <= k < 10 ==> (#[trigger] all@[k]).product_type == ProductType::RetailGood,
            forall|k: int|
                15 <= k < 21 ==> (#[trigger] all@[k]).product_type
                    == ProductType::ManufacturedGood,
            out@.len() == 10 + j - 15,
            forall|k: int| 0 <= k < 10 ==> out@[k] == all@[k],
            forall|k: int| 10 <= k < out@.len() ==> out@[k] == all@[k + 5],
        decreases 21 - j,
    {
        out.push(clone_product(&all, j));
        j = j + 1;
    }
    out
}

/// Lists the standard raw materials of the fixed catalog, in catalog order.
pub fn raw_materials() -> (r: Vec<Product>)
    ensures
        r@.len() == 5,
        products_wf(r@),
        forall|i: int|
            0 <= i < 5 ==> (#[trigger] r@[i]).product_type == ProductType::RawMaterial && r@[
                i
            ].id == i + 11,
{
    let all = default_products();
    let mut out: Vec<Product> = Vec::new();
    let mut i: usize = 10;
    while i < 15
        invariant
            10 <= i <= 15,
            all@.len() == 21,
            forall|k: int| 0 <= k < 21 ==> (#[trigger] all@[k]).id == k + 1,
            products_wf(all@),
            forall|k: int|
                10 <= k < 15 ==> (#[trigger] all@[k]).product_type == ProductType::RawMaterial,
            out@.len() == i - 10,
            forall|k: int| 0 <= k < out@.len() ==> out@[k] == all@[k + 10],
        decreases 15 - i,
    {
        out.push(clone_product(&all, i));
        i = i + 1;
    }
    out
}

/// Lists the standard manufactured goods of the fixed catalog, in catalog
/// order.
pub fn manufactured_goods() -> (r: Vec<Product>)
    ensures
        r@.len() == 6,
        products_wf(r@),
        forall|i: int|
            0 <= i < 6 ==> (#[trigger] r@[i]).product_type == ProductType::ManufacturedGood
                && r@[i].id == i + 16,
{
    let all = default_products();
    let mut out: Vec<Product> = Vec::new();
    let mut i: usize = 15;
    while i < 21
        invariant
            15 <= i <= 21,
            all@.len() == 21,
            forall|k: int| 0 <= k < 21 ==> (#[trigger] all@[k]).id == k + 1,
            products_wf(all@),
            forall|k: int|
                15 <= k < 21 ==> (#[trigger] all@[k]).product_type
                    == ProductType::ManufacturedGood,
            out@.len() == i - 15,
            forall|k: int| 0 <= k < out@.len() ==> out@[k] == all@[k + 15],
        decreases 21 - i,
    {
        out.push(clone_product(&all, i));
        i = i + 1;
    }
    out
}

/// Copies a catalog entry.
fn clone_product(v: &Vec<Product>, i: usize) -> (r: Product)
    requires
        i < v@.len(),
    ensures
        r == v@[i as int],
{
    Product {
        id: v[i].id,
        name: v[i].name.clone(),
        base_price: v[i].base_price,
        category: v[i].category,
        product_type: v[i].product_type,
    }
}

/// The fixed set of products a new game starts with.
pub fn default_products() -> (r: Vec<Product>)
    ensures
        r@.len() == 21,
        forall|i: int| 0 <= i < 21 ==> (#[trigger] r@[i]).id == i + 1,
        products_wf(r@),
        forall|i: int| 0 <= i < 10 ==> (#[trigger] r@[i]).product_type == ProductType::RetailGood,
        forall|i: int| 10 <= i < 15 ==> (#[trigger] r@[i]).product_type == ProductType::RawMaterial,
        forall|i: int| 15 <= i < 21
            ==> (#[trigger] r@[i]).product_type == ProductType::ManufacturedGood,
        r@[0].base_price == 200 && r@[0].category == Category::Food,
        r@[1].base_price == 350 && r@[1].category == Category::Food,
        r@[2].base_price == 500 && r@[2].category == Category::Food,
        r@[3].base_price == 400 && r@[3].category == Category::Food,
        r@[4].base_price == 2500 && r@[4].category == Category::Electronics,
        r@[5].base_price == 1500 && r@[5].category == Category::Electronics,
        r@[6].base_price == 800 && r@[6].category == Category::Electronics,
        r@[7].base_price == 1200 && r@[7].category == Category::Clothing,
        r@[8].base_price == 3500 && r@[8].category == Category::Clothing,
        r@[9].base_price == 600 && r@[9].category == Category::Clothing,
        r@[10].base_price == 500 && r@[10].category == Category::RawMaterial,
        r@[11].base_price == 800 && r@[11].category == Category::RawMaterial,
        r@[12].base_price == 400 && r@[12].category == Category::RawMaterial,
        r@[13].base_price == 300 && r@[13].category == Category::RawMaterial,
        r@[14].base_price == 1500 && r@[14].category == Category::RawMaterial,
        r@[15].base_price == 2500 && r@[15].category == Category::Furniture,
        r@[16].base_price == 6000 && r@[16].category == Category::Furniture,
        r@[17].base_price == 4500 && r@[17].category == Category::Clothing,
        r@[18].base_price == 5500 && r@[18].category == Category::Electronics,
        r@[19].base_price == 15000 && r@[19].category == Category::Electronics,
        r@[20].base_price == 40000 && r@[20].category == Category::Electronics,
{
    let mut v: Vec<Product> = Vec::new();
    v.push(Product::new(1, "Bread", 200, Category::Food));
    v.push(Product::new(2, "Milk", 350, Category::Food));
    v.push(Product::new(3, "Cheese", 500, Category::Food));
    v.push(Product::new(4, "Apples", 400, Category::Food));
    v.push(Product::new(5, "Headphones", 2500, Category::Electronics));
    v.push(Product::new(6, "Phone Charger", 1500, Category::Electronics));
    v.push(Product::new(7, "USB Cable", 800, Category::Electronics));
    v.push(Product::new(8, "T-Shirt", 1200, Category::Clothing));
    v.push(Product::new(9, "Jeans", 3500, Category::Clothing));
    v.push(Product::new(10, "Socks (3-pack)", 600, Category::Clothing));
    v.push(Product::new_with_type(
        11,
        "Lumber",
        500,
        Category::RawMaterial,
        ProductType::RawMaterial,
    ));
    v.push(Product::new_with_type(
        12,
        "Steel",
        800,
        Category::RawMaterial,
        ProductType::RawMaterial,
    ));
    v.push(Product::new_with_type(
        13,
        "Fabric",
        400,
        Category::RawMaterial,
        ProductType::RawMaterial,
    ));
    v.push(Product::new_with_type(
        14,
        "Plastic",
        300,
        Category::RawMaterial,
        ProductType::RawMaterial,
    ));
    v.push(Product::new_with_type(
        15,
        "Electronic Components",
        1500,
        Category::RawMaterial,
        ProductType::RawMaterial,
    ));
    v.push(Product::new_with_type(
        16,
        "Wooden Chair",
        2500,
        Category::Furniture,
        ProductType::ManufacturedGood,
    ));
    v.push(Product::new_with_type(
        17,
        "Steel Table",
        6000,
        Category::Furniture,
        ProductType::ManufacturedGood,
    ));
    v.push(Product::new_with_type(
        18,
        "Designer Jacket",
        4500,
        Category::Clothing,
        ProductType::ManufacturedGood,
    ));
    v.push(Product::new_with_type(
        19,
        "Blender",
        5500,
        Category::Electronics,
        ProductType::ManufacturedGood,
    ));
    v.push(Product::new_with_type(
        20,
        "Smartphone",
        15000,
        Category::Electronics,
        ProductType::ManufacturedGood,
    ));
    v.push(Product::new_with_type(
        21,
        "Laptop",
        40000,
        Category::Electronics,
        ProductType::ManufacturedGood,
    ));
    v
}

} // verus!
