//! Crafting-recipe profitability calculator.
//!
//! Given a recipe configuration (materials, labor cost, expected sale
//! price), the library validates the configuration, computes total
//! material cost, total labor cost and expected revenue, and renders a
//! human-readable report.  Monetary amounts are modelled as fixed-point
//! values in ten-thousandths of a major unit, so that all arithmetic is
//! exact, and are displayed in a three-tier denomination scheme
//! (gold / silver / copper).
#![verifier::loop_isolation(false)]

pub mod amount;
pub mod calc;
pub mod config;
pub mod currency;
pub mod numerals;
pub mod report;
pub mod validate;
