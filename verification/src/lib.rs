//! A post-CFGIR security pass for Move programs: interval and bit-fact abstract
//! interpretation that reports shifts, casts and divisions whose arithmetic
//! obligations cannot be proved on the way to a value-bearing sink.

pub mod ast;
pub mod benchmark;
pub mod cfg;
pub mod corpus;
pub mod demo;
pub mod domain;
pub mod laws;
pub mod model;
pub mod options;
pub mod package;
pub mod report;
pub mod rules;
pub mod scope;
pub mod sinks;
pub mod smt;
pub mod summaries;
pub mod text;
pub mod transfer;
pub mod u256;
