//! Fixed-point indicator and decision engine for an exchange trading client.
//!
//! Prices, volumes and balances are unsigned integers in a unit that the
//! caller chooses (for instance millionths of the quote currency).  The
//! relative strength index is a signed integer in millionths of a point.

pub mod error;
pub mod text;
pub mod signing;
pub mod account;
pub mod api;
pub mod endpoints;
pub mod retry;
pub mod realtime;
pub mod coin;
pub mod shortlist;
pub mod market_index;
pub mod series;
pub mod ranking;
pub mod ewm;
pub mod rsi;
pub mod deviation;
pub mod divergence;
pub mod response;
pub mod ops;
pub mod decision;
