//! Basis-arbitrage trading engine: venue rules, hedged-pair sizing, basis
//! strategy, request signing, and durable trade records.
//!
//! Quantities, prices and fee rates are fixed-point integers counting
//! 1e-8 units, so that lot-size quantisation and fee arithmetic are exact.

pub mod lot_size;
pub mod strutil;
pub mod assoc;
pub mod decimal;
pub mod sign;
pub mod sizer;
pub mod timefmt;
pub mod records;
pub mod basis;
pub mod client;
pub mod rules;
pub mod assets;
pub mod prices;
pub mod order;
pub mod liquidate;
pub mod params;
pub mod trader;
pub mod json;
pub mod events;
