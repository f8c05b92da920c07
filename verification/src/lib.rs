//! A day-stepped single-player business simulation: the player manages retail
//! stores and factories, competes against scripted rivals, takes loans and
//! trades stocks, all driven by one deterministic `advance_day` tick.
//!
//! All money is held in integer cents and every balance is kept within
//! [`money::MONEY_CAP`]; additions saturate there. Dimensionless multipliers
//! (economic, demand, variance) are held in milli-units (1000 = 1.0) and
//! interest rates in basis points (100 = 1%).

pub mod competitor;
pub mod economy;
pub mod errors;
pub mod factory;
pub mod game;
pub mod ledger;
pub mod loan;
pub mod money;
pub mod player;
pub mod product;
pub mod rand;
pub mod recipe;
pub mod stock;
pub mod store;
