//! The failure reasons a command can return. Commands validate fully before
//! mutating: an error means nothing changed.

use vstd::prelude::*;

verus! {

/// Why a command was rejected.
#[derive(Debug, Clone, Copy, PartialEq, Eq, Structural)]
pub enum CommandError {
    /// The store index is out of range.
    InvalidStoreIndex,
    /// The factory index is out of range.
    InvalidFactoryIndex,
    /// No factory is currently selected.
    NoFactorySelected,
    /// The product id is not in the catalog.
    ProductNotFound,
    /// The product has no wholesale price listed.
    WholesalePriceNotFound,
    /// The product is not a raw material.
    NotRawMaterial,
    /// The player cannot afford the purchase or payment.
    NotEnoughCash { needed: u64, have: i64 },
    /// The recipe id is not in the recipe book.
    RecipeNotFound,
    /// A retail price must be a positive amount of cents within the cap.
    InvalidPrice,
    /// The product is not in the store's inventory.
    ProductNotInInventory,
    /// A requested quantity must be positive.
    QuantityZero,
    /// The purchase would push a stored quantity past the storage cap.
    StorageLimitExceeded,
    /// Every production slot is busy.
    NoProductionSlots,
    /// The factory lacks the raw materials for even one batch.
    InsufficientRawMaterials,
    /// The factory holds no finished goods of that product.
    NoFinishedGoods,
    /// The factory is not connected to that store.
    NotConnectedToStore,
    /// A store employs at most three people.
    MaxEmployees,
    /// The employee index is out of range.
    InvalidEmployeeIndex,
    /// A factory employs at most three workers.
    MaxWorkers,
    /// The worker index is out of range.
    InvalidWorkerIndex,
    /// Firing this worker would leave more queued jobs than slots.
    WorkersBusy,
    /// The loan amount is below the per-loan minimum.
    LoanTooSmall { minimum: u64 },
    /// The loan amount is above the per-loan maximum.
    LoanTooLarge { maximum: u64 },
    /// The loan would push total debt past the aggregate limit.
    DebtLimitExceeded { limit: u64, available: u64 },
    /// A term loan runs 7, 14 or 30 days.
    InvalidTermDays,
    /// A loan payment must be a positive amount.
    PaymentNotPositive,
    /// The loan id is not in the ledger.
    LoanNotFound,
    /// The stock id is not on the market.
    StockNotFound,
    /// The player holds no shares of that stock.
    NoHolding,
    /// The player holds fewer shares than offered for sale.
    NotEnoughShares { owned: u64, requested: u64 },
}

} // verus!
