//! What the parts of the analysis promise of their inputs and results.

pub mod calls;
pub mod commands;
pub mod conditions;
pub mod denominators;
pub mod descriptions;
pub mod evaluation;
pub mod expressions;
pub mod flow;
pub mod formulas;
pub mod identities;
pub mod numbers;
pub mod operations;
pub mod packages;
pub mod programs;
pub mod reports;
pub mod roundings;
pub mod rules;
pub mod scopes;
pub mod shifts;
pub mod texts;
pub mod wordings;
