//! A pricing engine: a catalog of cost-bearing nodes and a list of raw inputs
//! give a cost per input path, and an ordered strategy of arithmetic and
//! conditional steps turns those costs into a final price with an itemised
//! breakdown.
//!
//! Amounts are exact decimals with six places (`value`). Path patterns are
//! compiled into anchored matchers and cached (`pattern`). The catalog is
//! indexed (`node`), the inputs are given their costs (`input`), references
//! are resolved (`resolve`), and the steps of a strategy (`strategy`) are
//! run one after the other (`operators`, `outcome`, `process`, `calculate`),
//! each leaving a record (`breakdown`) or ending the calculation with an
//! error (`error`). What holds of all calculations is stated and proved in
//! `laws`.

pub mod breakdown;
pub mod calculate;
pub mod engine;
pub mod error;
pub mod input;
pub mod laws;
pub mod node;
pub mod operators;
pub mod outcome;
pub mod pattern;
pub mod process;
pub mod resolve;
pub mod scalar;
pub mod strategy;
pub mod text;
pub mod value;

pub use breakdown::{BreakdownEntry, CalculationResult};
pub use engine::PricingEngine;
pub use error::{Operation, PricingError};
pub use input::{Input, PathCost};
pub use node::{NodeIndex, NodeKind, PricingNode};
pub use pattern::Matcher;
pub use scalar::Scalar;
pub use strategy::{Condition, PricingStrategy, Step};
pub use value::Value;
