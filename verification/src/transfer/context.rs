//! What the interpretation of one function can see.

use crate::ast::{BinOp, Exp, Function, FunctionKey, Program, UnannotatedExp, Var};
use crate::domain::state::{AbstractState, AbstractStateView};
use crate::domain::value::{single_interval, ValueState, ValueStateView};
use crate::domain::widths::{integer_value, integer_value_spec};
use crate::model::{views, Dup};
use crate::options::SecurityMathMode;
use crate::summaries::{FunctionSummary, ReturnSummaryView};
use crate::transfer::callgraph::{resolve, resolve_spec};
use crate::u256::U256;
use vstd::prelude::*;

verus! {

/// Whether the interpretation is to find out what a function returns, or to report.
#[derive(Clone, Copy, Debug, PartialEq, Eq, Structural)]
pub enum AnalysisMode {
    Summary,
    Findings,
}

/// The interpreter of one function.
pub struct FunctionAnalyzer<'a> {
    pub function: &'a Function,
    pub program: &'a Program,
    /// Which functions of the program are analyzed.
    pub kept: &'a Vec<bool>,
    /// What is known so far of each function of the program.
    pub summaries: &'a Vec<FunctionSummary>,
    pub mode: AnalysisMode,
    pub math_mode: SecurityMathMode,
}

pub struct Ctx {
    pub function: Function,
    pub functions: Seq<Function>,
    pub kept: Seq<bool>,
    pub summaries: Seq<Seq<ReturnSummaryView>>,
    pub mode: AnalysisMode,
    pub math_mode: SecurityMathMode,
}

impl<'a> View for FunctionAnalyzer<'a> {
    type V = Ctx;

    open spec fn view(&self) -> Ctx {
        Ctx {
            function: *self.function,
            functions: self.program.functions@,
            kept: self.kept@,
            summaries: views(self.summaries@),
            mode: self.mode,
            math_mode: self.math_mode,
        }
    }
}

impl Ctx {
    /// What is known of the function that a call goes to, where it is analyzed.
    pub open spec fn summary_of(self, key: FunctionKey) -> Option<Seq<ReturnSummaryView>> {
        match resolve_spec(self.functions, self.kept, key, 0) {
            Some(i) => if i < self.summaries.len() {
                Some(self.summaries[i as int])
            } else {
                None
            },
            None => None,
        }
    }

    /// The value of a variable: what the state knows, or anything of its type.
    pub open spec fn lookup(self, st: AbstractStateView, var: Var) -> ValueStateView {
        if st.locals.contains_key(var.index) {
            st.locals[var.index]
        } else if var.index < self.function.vars@.len() {
            ValueStateView::of_single(self.function.vars@[var.index as int].ty)
        } else {
            ValueStateView::top_spec()
        }
    }

    /// The number that an expression is known to be.
    pub open spec fn const_value_spec(self, e: Exp, st: AbstractStateView) -> Option<U256>
        decreases e,
    {
        match e.value {
            UnannotatedExp::Value(value) => integer_value_spec(value),
            UnannotatedExp::Move(var)
            | UnannotatedExp::Copy(var)
            | UnannotatedExp::BorrowLocal(var) => self.lookup(st, var).exact_value_spec(),
            UnannotatedExp::Cast(inner, _) => self.const_value_spec(*inner, st),
            UnannotatedExp::BinopExp(lhs, op, rhs) => match (
                self.const_value_spec(*lhs, st),
                self.const_value_spec(*rhs, st),
            ) {
                (Some(l), Some(r)) => fold_spec(op, l, r),
                _ => None,
            },
            _ => None,
        }
    }
}

/// The result of an operation on two numbers, where there is one.
pub open spec fn fold_spec(op: BinOp, l: U256, r: U256) -> Option<U256> {
    match op {
        BinOp::Add => l.add_spec(r),
        BinOp::Sub => l.sub_spec(r),
        BinOp::Mul => l.mul_spec(r),
        BinOp::Div => l.div_spec(r),
        BinOp::Mod => l.rem_spec(r),
        BinOp::BitAnd => Some(l.and_spec(r)),
        BinOp::BitOr => Some(l.or_spec(r)),
        BinOp::Xor => Some(l.xor_spec(r)),
        BinOp::Shl => Some(l.shl_spec(r@ % 256)),
        BinOp::Shr => Some(l.shr_spec(r@ % 256)),
        _ => None,
    }
}

pub fn fold(op: BinOp, l: U256, r: U256) -> (result: Option<U256>)
    ensures
        result == fold_spec(op, l, r),
{
    match op {
        BinOp::Add => l.checked_add(r),
        BinOp::Sub => l.checked_sub(r),
        BinOp::Mul => l.checked_mul(r),
        BinOp::Div => l.checked_div(r),
        BinOp::Mod => l.checked_rem(r),
        BinOp::BitAnd => Some(l.bitand(r)),
        BinOp::BitOr => Some(l.bitor(r)),
        BinOp::Xor => Some(l.bitxor(r)),
        BinOp::Shl => Some(l.shl(r.low_byte())),
        BinOp::Shr => Some(l.shr(r.low_byte())),
        _ => None,
    }
}

impl<'a> FunctionAnalyzer<'a> {
    /// The summary of the analyzed function that a key names.
    pub fn callee(&self, key: &FunctionKey) -> (r: Option<&'a FunctionSummary>)
        ensures
            match r {
                Some(summary) => self@.summary_of(*key) == Some(summary@),
                None => self@.summary_of(*key) is None,
            },
    {
        match resolve(self.program, self.kept, key) {
            Some(i) => if i < self.summaries.len() {
                Some(&self.summaries[i])
            } else {
                None
            },
            None => None,
        }
    }

    pub fn lookup_var(&self, state: &AbstractState, var: Var) -> (r: ValueState)
        ensures
            r@ == self@.lookup(state@, var),
    {
        match state.locals.get(var.index) {
            Some(value) => value.dup(),
            None => if var.index < self.function.vars.len() {
                single_interval(&self.function.vars[var.index].ty)
            } else {
                ValueState::top()
            },
        }
    }

    pub fn const_value(&self, e: &Exp, state: &AbstractState) -> (r: Option<U256>)
        ensures
            r == self@.const_value_spec(*e, state@),
        decreases *e,
    {
        match &e.value {
            UnannotatedExp::Value(value) => integer_value(value),
            UnannotatedExp::Move(var)
            | UnannotatedExp::Copy(var)
            | UnannotatedExp::BorrowLocal(var) => self.lookup_var(state, *var).exact_value(),
            UnannotatedExp::Cast(inner, _) => self.const_value(inner, state),
            UnannotatedExp::BinopExp(lhs, op, rhs) => match (
                self.const_value(lhs, state),
                self.const_value(rhs, state),
            ) {
                (Some(l), Some(r)) => fold(*op, l, r),
                _ => None,
            },
            _ => None,
        }
    }
}

} // verus!
