//! Accounting and risk core of a leveraged perpetual-futures venue.
//!
//! Positions, conditional orders, per-market open interest and funding, and a
//! shared liquidity pool, all in fixed-point integer arithmetic. Every
//! operation either succeeds and commits, or returns an error and changes
//! nothing in any component it was handed.
//!
//! The components, leaves first:
//! - [`token`]: the token ledger in which everything is paid;
//! - [`config`]: the parameter store;
//! - [`oracle`]: one price per market;
//! - [`market`]: open interest under a cap, and the funding rate;
//! - [`pool`]: shares of providers, reserved liquidity, collateral;
//! - [`manager`], [`adjust`], [`execution`]: the position manager, which
//!   opens, changes, closes and liquidates positions and keeps the orders.
//!
//! What holds of the venue as a whole is stated and proved in [`laws`] and
//! [`venue`].
//!
//! The library decides; it does not authenticate. Whoever calls it has
//! established before that the caller is the [`principal::Principal`] it
//! names, and hands it the time.

pub mod adjust;
pub mod config;
pub mod error;
pub mod execution;
pub mod laws;
pub mod ledger;
pub mod manager;
pub mod market;
pub mod math;
pub mod oracle;
pub mod order;
pub mod pool;
pub mod position;
pub mod principal;
pub mod token;
pub mod venue;
