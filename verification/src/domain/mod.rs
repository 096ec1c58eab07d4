//! The abstract domain: intervals, known bits, formula facts, values and states.

pub mod bit_facts;
pub mod bits;
pub mod denominator;
pub mod formula;
pub mod hash;
pub mod index_set;
pub mod interval;
pub mod locals;
pub mod risk;
pub mod state;
pub mod tags;
pub mod value;
pub mod widths;
