//! Storefront checkout library: cart reconciliation against live stock,
//! weight/price aggregation, country and postcode based shipping rates,
//! tax computation, and assembly of immutable order records.
//!
//! All monetary amounts are integer euro cents; weights are integer grams.

pub mod backend;
pub mod cart;
pub mod catalog;
pub mod checkout;
pub mod media;
pub mod money;
pub mod orders;
pub mod shipping;
pub mod strutil;
pub mod tags;
pub mod users;
