//! What programs compute: the meaning of expressions over unsigned integers.

use crate::ast::{BinOp, Exp, UnannotatedExp, Value};
use crate::domain::widths::{builtin_width_spec, integer_value_spec, type_width_spec, uint_max_spec};
use crate::transfer::context::fold_spec;
use crate::u256::{u256_of, U256};
use vstd::arithmetic::power2::pow2;
use vstd::prelude::*;

verus! {

/// Whether a number fits an unsigned type of this width.
pub open spec fn fits(width: u16, x: U256) -> bool {
    x@ <= uint_max_spec(width)@
}

/// A truth value as a number.
pub open spec fn truth_number(b: bool) -> U256 {
    if b {
        U256::one_spec()
    } else {
        U256::zero_spec()
    }
}

/// The truth value that a number counts as.
pub open spec fn as_truth(x: Option<U256>) -> Option<U256> {
    match x {
        Some(x) => Some(truth_number(x@ != 0)),
        None => None,
    }
}

/// What an operation on integers gives, where the program does not abort. Sums, differences and
/// products that do not fit abort, and so do divisions by zero and shifts by at least the width;
/// a left shift silently loses the bits above the width.
pub open spec fn result_of(op: BinOp, width: Option<u16>, x: U256, y: U256) -> Option<U256> {
    match op {
        BinOp::Add
        | BinOp::Sub
        | BinOp::Mul
        | BinOp::Div
        | BinOp::Mod
        | BinOp::BitAnd
        | BinOp::BitOr
        | BinOp::Xor => match (width, fold_spec(op, x, y)) {
            (Some(w), Some(z)) => if fits(w, x) && fits(w, y) && fits(w, z) {
                Some(z)
            } else {
                None
            },
            _ => None,
        },
        BinOp::Shl => match width {
            Some(w) => if fits(w, x) && y@ < w {
                Some(u256_of((x@ * pow2(y@)) % pow2(w as nat)))
            } else {
                None
            },
            None => None,
        },
        BinOp::Shr => match width {
            Some(w) => if fits(w, x) && y@ < w {
                Some(x.shr_spec(y@))
            } else {
                None
            },
            None => None,
        },
        BinOp::Eq => Some(truth_number(x == y)),
        BinOp::Neq => Some(truth_number(x != y)),
        BinOp::Lt => Some(truth_number(x@ < y@)),
        BinOp::Le => Some(truth_number(x@ <= y@)),
        BinOp::Gt => Some(truth_number(x@ > y@)),
        BinOp::Ge => Some(truth_number(x@ >= y@)),
        _ => None,
    }
}

/// The number that an expression comes out as, given the numbers in the variables; truth values
/// count as one and zero. None where the program aborts, and where the expression does more than
/// compute on integers: it calls, packs or goes through a reference.
pub open spec fn number_of(e: Exp, values: Map<usize, U256>) -> Option<U256>
    decreases e,
{
    match e.value {
        UnannotatedExp::Value(Value::Bool(b)) => Some(truth_number(b)),
        UnannotatedExp::Value(value) => integer_value_spec(value),
        UnannotatedExp::Move(var) | UnannotatedExp::Copy(var) => if values.contains_key(var.index) {
            Some(values[var.index])
        } else {
            None
        },
        UnannotatedExp::Not(inner) => match number_of(*inner, values) {
            Some(x) => Some(truth_number(x@ == 0)),
            None => None,
        },
        UnannotatedExp::Cast(inner, builtin) => match (
            number_of(*inner, values),
            builtin_width_spec(builtin),
        ) {
            (Some(x), Some(w)) => if fits(w, x) {
                Some(x)
            } else {
                None
            },
            _ => None,
        },
        UnannotatedExp::BinopExp(lhs, op, rhs) => match op {
            BinOp::And => match number_of(*lhs, values) {
                Some(x) => if x@ == 0 {
                    Some(U256::zero_spec())
                } else {
                    as_truth(number_of(*rhs, values))
                },
                None => None,
            },
            BinOp::Or => match number_of(*lhs, values) {
                Some(x) => if x@ != 0 {
                    Some(U256::one_spec())
                } else {
                    as_truth(number_of(*rhs, values))
                },
                None => None,
            },
            _ => match (number_of(*lhs, values), number_of(*rhs, values)) {
                (Some(x), Some(y)) => result_of(op, type_width_spec(e.ty), x, y),
                _ => None,
            },
        },
        _ => None,
    }
}

} // verus!
