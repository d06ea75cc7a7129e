//! The decisions of an implied-volatility term-structure fitter and option
//! pricer, each with a proved contract.
//!
//! Numbers travel through this library as binary64 encodings. The arithmetic
//! on them (regression solves, the normal distribution, simulated prices) is
//! the caller's; what is decided about them is decided here:
//!
//! - [`provider`]: which quote of an option chain gives an expiry its implied
//!   volatility;
//! - [`observation`]: the order in which a fit reads its observations, with
//!   [`observation_laws`] on what that order is;
//! - [`fit`]: which observation sets can be fitted, which shape of the grid
//!   search wins, and what a curve reads where the model goes below zero;
//! - [`pricing`]: which pricing requests are accepted, and when an option
//!   pays;
//! - [`simulation`]: what a Monte Carlo valuation simulates.
//!
//! [`binary64`] holds the tests on encodings that all of these rest on.

pub mod binary64;
pub mod fit;
pub mod observation;
pub mod observation_laws;
pub mod pricing;
pub mod provider;
pub mod simulation;
