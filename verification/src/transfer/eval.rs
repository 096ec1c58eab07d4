//! Expressions: their values, and what is reported on the way.

use crate::ast::{BuiltinTypeName, Exp, UnannotatedExp, Value};
use crate::domain::bit_facts::BitFacts;
use crate::domain::risk::{push_origin, RiskKind, RiskOrigin};
use crate::domain::state::{AbstractState, AbstractStateView};
use crate::domain::value::{type_interval, ValueState, ValueStateView};
use crate::domain::widths::{
    builtin_width, builtin_width_spec, integer_value, integer_value_spec, uint_max_spec,
};
use crate::model::{views, Dup};
use crate::report::{SecurityFinding, SecurityFindingView};
use crate::rules::narrow_cast::{cast_condition, cast_condition_spec, cast_max};
use crate::transfer::binop::{
    binop_findings_spec, binop_value_spec, bits_or_unknown, drop_suspicious, with_origin,
    without_suspicious,
};
use crate::transfer::call::{call_findings_spec, call_values_spec};
use crate::transfer::context::{Ctx, FunctionAnalyzer};
use crate::transfer::describe::{
    describe, describe_spec, lemma_arguments_smaller, lemma_elements_smaller,
};
use crate::transfer::emit::{emit_arithmetic_spec, make_origin_spec};
use crate::u256::U256;
use vstd::prelude::*;

verus! {

/// The width of an integer literal.
pub open spec fn literal_width(value: Value) -> u16 {
    match value {
        Value::U8(_) => 8,
        Value::U16(_) => 16,
        Value::U32(_) => 32,
        Value::U64(_) => 64,
        Value::U128(_) => 128,
        _ => 256,
    }
}

/// The value of a literal.
pub open spec fn constant_spec(value: Value) -> ValueStateView {
    match integer_value_spec(value) {
        Some(integer) => ValueStateView::exact_uint_spec(literal_width(value), integer),
        None => if value is Bool {
            ValueStateView::of_bool()
        } else {
            ValueStateView::top_spec()
        },
    }
}

pub fn value_from_constant(value: &Value) -> (r: ValueState)
    ensures
        r@ == constant_spec(*value),
{
    if let Some(integer) = integer_value(value) {
        let width: u16 = match value {
            Value::U8(_) => 8,
            Value::U16(_) => 16,
            Value::U32(_) => 32,
            Value::U64(_) => 64,
            Value::U128(_) => 128,
            _ => 256,
        };
        ValueState::exact_uint(width, integer)
    } else {
        match value {
            Value::Bool(_) => ValueState::either_bool(),
            _ => ValueState::top(),
        }
    }
}

/// The first of some values; anything where there is none.
pub open spec fn first_or_top_spec(values: Seq<ValueStateView>) -> ValueStateView {
    if values.len() > 0 {
        values[0]
    } else {
        ValueStateView::top_spec()
    }
}

pub fn first_or_top(values: &Vec<ValueState>) -> (r: ValueState)
    ensures
        r@ == first_or_top_spec(views(values@)),
{
    if values.len() > 0 {
        values[0].dup()
    } else {
        ValueState::top()
    }
}

/// A value after a cast to an integer type of this width.
pub open spec fn narrowed_spec(
    c: Ctx,
    exp: Exp,
    inner: Exp,
    value: ValueStateView,
    st: AbstractStateView,
    width: u16,
) -> ValueStateView {
    let max = uint_max_spec(width);
    let risky = if value.interval.at_most_spec(max) {
        value
    } else {
        with_origin(
            value,
            make_origin_spec(
                c,
                RiskKind::ReachableNarrowCast,
                exp,
                value,
                inner,
                st,
                width,
                None,
                Some(max),
                cast_condition_spec(describe_spec(c.function, inner), max),
                "Reachable narrowing cast on value-bearing path"@,
                false,
                None,
            ),
        )
    };
    ValueStateView {
        interval: value.interval.intersect_spec(Some(U256::zero_spec()), Some(max)),
        bit_facts: Some(bits_or_unknown(value, width).narrowed(width)),
        ..risky
    }.refined()
}

/// A value after a cast.
#[verifier::opaque]
pub open spec fn cast_value_spec(
    c: Ctx,
    exp: Exp,
    inner: Exp,
    value: ValueStateView,
    builtin: BuiltinTypeName,
    st: AbstractStateView,
) -> ValueStateView {
    let narrowed = match builtin_width_spec(builtin) {
        Some(width) => narrowed_spec(c, exp, inner, value, st, width),
        None => value,
    };
    ValueStateView { risky_origins: without_suspicious(narrowed.risky_origins), ..narrowed }
}

/// What is reported when a value with risks is cast.
pub open spec fn cast_findings_spec(
    c: Ctx,
    exp: Exp,
    cast: ValueStateView,
    st: AbstractStateView,
) -> Seq<SecurityFindingView> {
    emit_arithmetic_spec(
        c,
        cast.risky_origins,
        cast.risky_origins.len(),
        exp.loc,
        st,
        Some(describe_spec(c.function, exp)),
        true,
    )
}

/// The values of an expression, and what is reported on the way.
pub open spec fn eval_spec(c: Ctx, e: Exp, st: AbstractStateView) -> (
    Seq<ValueStateView>,
    Seq<SecurityFindingView>,
)
    decreases e, 0nat,
{
    match e.value {
        UnannotatedExp::Unit
        | UnannotatedExp::Unreachable(_)
        | UnannotatedExp::UnresolvedError(_) => (Seq::empty(), Seq::empty()),
        UnannotatedExp::Value(value) => (seq![constant_spec(value)], Seq::empty()),
        UnannotatedExp::Move(var) | UnannotatedExp::Copy(var) | UnannotatedExp::BorrowLocal(var) =>
            (seq![c.lookup(st, var)], Seq::empty()),
        UnannotatedExp::Constant(_) => (seq![ValueStateView::of_type(e.ty)], Seq::empty()),
        UnannotatedExp::ErrorConstant => (
            seq![ValueStateView::exact_uint_spec(256, U256::zero_spec())],
            Seq::empty(),
        ),
        UnannotatedExp::Freeze(inner) => eval_spec(c, *inner, st),
        UnannotatedExp::Dereference(inner) => eval_spec(c, *inner, st),
        UnannotatedExp::Borrow(inner, _) => eval_spec(c, *inner, st),
        UnannotatedExp::Not(inner) => (
            seq![ValueStateView::of_bool()],
            eval_spec(c, *inner, st).1,
        ),
        UnannotatedExp::Multiple(values) => eval_each_spec(c, values@, values@.len(), st),
        UnannotatedExp::Vector(values, _) => (
            seq![ValueStateView::of_type(e.ty)],
            eval_each_spec(c, values@, values@.len(), st).1,
        ),
        UnannotatedExp::Pack(fields, _) => (
            seq![ValueStateView::of_type(e.ty)],
            eval_each_spec(c, fields@, fields@.len(), st).1,
        ),
        UnannotatedExp::PackVariant(fields, _) => (
            seq![ValueStateView::of_type(e.ty)],
            eval_each_spec(c, fields@, fields@.len(), st).1,
        ),
        UnannotatedExp::ModuleCall(call) => {
            let (arguments, found) = eval_each_spec(
                c,
                call.arguments@,
                call.arguments@.len(),
                st,
            );
            (
                call_values_spec(c, *call, e, arguments, st),
                found + call_findings_spec(c, *call, e, arguments, st),
            )
        },
        UnannotatedExp::Cast(inner, builtin) => {
            let (values, found) = eval_spec(c, *inner, st);
            let cast = cast_value_spec(c, e, *inner, first_or_top_spec(values), builtin, st);
            (seq![cast], found + cast_findings_spec(c, e, cast, st))
        },
        UnannotatedExp::BinopExp(lhs, op, rhs) => {
            let (lefts, found_left) = eval_spec(c, *lhs, st);
            let (rights, found_right) = eval_spec(c, *rhs, st);
            let left = first_or_top_spec(lefts);
            let right = first_or_top_spec(rights);
            (
                seq![binop_value_spec(c, e, *lhs, left, op, *rhs, right, st)],
                found_left + found_right + binop_findings_spec(
                    c,
                    e,
                    *lhs,
                    left,
                    op,
                    *rhs,
                    right,
                    st,
                ),
            )
        },
    }
}

/// The values of the first `n` expressions of a list, one for each, and what is reported.
pub open spec fn eval_each_spec(c: Ctx, es: Seq<Exp>, n: nat, st: AbstractStateView) -> (
    Seq<ValueStateView>,
    Seq<SecurityFindingView>,
)
    decreases es, n,
{
    if n == 0 || n > es.len() {
        (Seq::empty(), Seq::empty())
    } else {
        let (values, found) = eval_each_spec(c, es, (n - 1) as nat, st);
        let (last, more) = eval_spec(c, es[n - 1], st);
        (values.push(first_or_top_spec(last)), found + more)
    }
}

fn one_value(value: ValueState) -> (r: Vec<ValueState>)
    ensures
        views(r@) == seq![value@],
{
    let mut r: Vec<ValueState> = Vec::new();
    r.push(value);
    assert(views(r@) =~= seq![value@]);
    r
}

impl<'a> FunctionAnalyzer<'a> {
    fn narrow(
        &self,
        exp: &Exp,
        inner: &Exp,
        value: ValueState,
        state: &AbstractState,
        width: u16,
    ) -> (r: ValueState)
        ensures
            r@ == narrowed_spec(self@, *exp, *inner, value@, state@, width),
    {
        let max_value: U256 = cast_max(width);
        let mut value: ValueState = value;
        if !value.interval.at_most(max_value) {
            let text: String = describe(self.function, inner);
            let origin: RiskOrigin = self.make_origin(
                RiskKind::ReachableNarrowCast,
                exp,
                &value,
                inner,
                state,
                width,
                None,
                Some(max_value),
                cast_condition(text.as_str(), max_value),
                "Reachable narrowing cast on value-bearing path",
                false,
                None,
            );
            push_origin(&mut value.risky_origins, origin);
        }
        value.interval = value.interval.intersect(Some(U256::zero()), Some(max_value));
        let facts: BitFacts = match value.bit_facts {
            Some(facts) => facts,
            None => BitFacts::unknown(width),
        };
        value.bit_facts = Some(facts.narrow(width));
        value.refine_with_bit_facts();
        value
    }

    pub fn eval_cast(
        &self,
        exp: &Exp,
        inner: &Exp,
        value: ValueState,
        builtin: BuiltinTypeName,
        state: &AbstractState,
        out: &mut Vec<SecurityFinding>,
    ) -> (r: ValueState)
        ensures
            r@ == cast_value_spec(self@, *exp, *inner, value@, builtin, state@),
            views(final(out)@) == views(old(out)@) + cast_findings_spec(self@, *exp, r@, state@),
    {
        reveal(cast_value_spec);
        let mut value: ValueState = match builtin_width(&builtin) {
            Some(width) => self.narrow(exp, inner, value, state, width),
            None => value,
        };
        value.risky_origins = drop_suspicious(&value.risky_origins);
        let detail: Option<String> = Some(describe(self.function, exp));
        self.emit_arithmetic_use(&value.risky_origins, exp.loc, state, &detail, true, out);
        value
    }

    pub fn eval_exp(&self, e: &Exp, state: &AbstractState, out: &mut Vec<SecurityFinding>) -> (r:
        Vec<ValueState>)
        ensures
            views(r@) == eval_spec(self@, *e, state@).0,
            views(final(out)@) == views(old(out)@) + eval_spec(self@, *e, state@).1,
        decreases *e,
    {
        let ghost start = views(out@);
        assert(start + Seq::<SecurityFindingView>::empty() =~= start);
        proof {
            lemma_elements_smaller(*e);
        }
        match &e.value {
            UnannotatedExp::Unit
            | UnannotatedExp::Unreachable(_)
            | UnannotatedExp::UnresolvedError(_) => {
                let r: Vec<ValueState> = Vec::new();
                assert(views(r@) =~= Seq::<ValueStateView>::empty());
                r
            },
            UnannotatedExp::Value(value) => one_value(value_from_constant(value)),
            UnannotatedExp::Move(var)
            | UnannotatedExp::Copy(var)
            | UnannotatedExp::BorrowLocal(var) => one_value(self.lookup_var(state, *var)),
            UnannotatedExp::Constant(_) => one_value(type_interval(&e.ty)),
            UnannotatedExp::ErrorConstant => one_value(ValueState::exact_uint(256, U256::zero())),
            UnannotatedExp::Freeze(inner) => self.eval_exp(inner, state, out),
            UnannotatedExp::Dereference(inner) => self.eval_exp(inner, state, out),
            UnannotatedExp::Borrow(inner, _) => self.eval_exp(inner, state, out),
            UnannotatedExp::Not(inner) => {
                let _ = self.eval_exp(inner, state, out);
                one_value(ValueState::either_bool())
            },
            UnannotatedExp::Multiple(values) => self.eval_each(values, state, out),
            UnannotatedExp::Vector(values, _) => {
                let _ = self.eval_each(values, state, out);
                one_value(type_interval(&e.ty))
            },
            UnannotatedExp::Pack(fields, _) => {
                let _ = self.eval_each(fields, state, out);
                one_value(type_interval(&e.ty))
            },
            UnannotatedExp::PackVariant(fields, _) => {
                let _ = self.eval_each(fields, state, out);
                one_value(type_interval(&e.ty))
            },
            UnannotatedExp::ModuleCall(call) => {
                proof {
                    lemma_arguments_smaller(*e);
                }
                let arguments: Vec<ValueState> = self.eval_each(&call.arguments, state, out);
                let r = self.eval_module_call(call, e, &arguments, state, out);
                assert(views(out@) =~= start + eval_spec(self@, *e, state@).1);
                r
            },
            UnannotatedExp::Cast(inner, builtin) => {
                let values: Vec<ValueState> = self.eval_exp(inner, state, out);
                let value: ValueState = first_or_top(&values);
                let r = one_value(self.eval_cast(e, inner, value, *builtin, state, out));
                assert(views(out@) =~= start + eval_spec(self@, *e, state@).1);
                r
            },
            UnannotatedExp::BinopExp(lhs, op, rhs) => {
                let lefts: Vec<ValueState> = self.eval_exp(lhs, state, out);
                let rights: Vec<ValueState> = self.eval_exp(rhs, state, out);
                let left: ValueState = first_or_top(&lefts);
                let right: ValueState = first_or_top(&rights);
                let r = one_value(
                    self.eval_binop(e, lhs, &left, *op, rhs, &right, state, out),
                );
                assert(views(out@) =~= start + eval_spec(self@, *e, state@).1);
                r
            },
        }
    }

    fn eval_each(&self, es: &Vec<Exp>, state: &AbstractState, out: &mut Vec<SecurityFinding>) -> (r:
        Vec<ValueState>)
        ensures
            views(r@) == eval_each_spec(self@, es@, es@.len(), state@).0,
            views(final(out)@) == views(old(out)@) + eval_each_spec(
                self@,
                es@,
                es@.len(),
                state@,
            ).1,
        decreases es@,
    {
        let ghost start = views(out@);
        let mut r: Vec<ValueState> = Vec::new();
        let mut i: usize = 0;
        assert(views(r@) =~= eval_each_spec(self@, es@, 0, state@).0);
        assert(start + eval_each_spec(self@, es@, 0, state@).1 =~= start);
        while i < es.len()
            invariant
                i <= es@.len(),
                views(r@) == eval_each_spec(self@, es@, i as nat, state@).0,
                views(out@) == start + eval_each_spec(self@, es@, i as nat, state@).1,
            decreases es@.len() - i,
        {
            let ghost before = r@;
            assert(decreases_to!(es@ => es@[i as int]));
            let values: Vec<ValueState> = self.eval_exp(&es[i], state, out);
            let value: ValueState = first_or_top(&values);
            r.push(value);
            assert(views(r@) =~= views(before).push(value@));
            i = i + 1;
            assert(views(out@) =~= start + eval_each_spec(self@, es@, i as nat, state@).1);
        }
        r
    }
}

} // verus!
