//! The abstract interpreter: from expressions and commands to values, states and findings.

pub mod binop;
pub mod call;
pub mod callgraph;
pub mod command;
pub mod constraint_laws;
pub mod constraints;
pub mod context;
pub mod describe;
pub mod emit;
pub mod engine;
pub mod eval;
pub mod fixpoint;
pub mod formulas;
pub mod learned;
pub mod losses;
pub mod program;
pub mod reports;
pub mod risks;
pub mod runs;
pub mod semantics;
pub mod soundness;
pub mod suppression;
pub mod validity;
