//! Persistence layer for a quantitative-finance toolbox: assets, price
//! tickers with time-stamped quotes, and ledger transactions, stored in an
//! ordered key-value engine under composite byte keys whose lexicographic
//! order equals the intended logical order.

pub mod asset;
pub mod codec;
pub mod cursor;
pub mod data_handler;
pub mod fiat;
pub mod keys;
pub mod kv_handler;
pub mod laws;
pub mod order;
pub mod quote;
pub mod store;
pub mod transaction;
