//! Expressions: what their parts pass on, what casts do, and what is reported on the way.

use crate::ast::{BinOp, BuiltinTypeName, Exp, UnannotatedExp, Value};
use crate::domain::bit_facts::{
    complement, lemma_bit_complement, lemma_bit_mask, mask_keeps_what_fits, BitFacts,
};
use crate::domain::bits::{bit, lemma_bit_ops, lemma_bits_determine};
use crate::domain::interval::intersect_is_exact;
use crate::domain::risk::{origin_key_spec, RiskKind, RiskOriginView};
use crate::domain::state::AbstractStateView;
use crate::domain::value::ValueStateView;
use crate::domain::widths::{
    builtin_width_spec, integer_value_spec, is_width, lemma_pow2_widths, single_width_spec,
    uint_max_is_all_ones, uint_max_spec,
};
use crate::laws::numbers::{
    joined_facts_are_tight, lemma_bit_of_zero, nothing_but_the_type_is_known,
};
use crate::laws::operations::hold_a_graver_risk;
use crate::laws::reports::{
    each_risk_of_an_operand_is_told, is_left_to_callers, is_told_in_arithmetic, tells_of,
};
use crate::laws::roundings::was_rounded_both_ways;
use crate::report::{SecurityFindingView, SinkKind};
use crate::transfer::binop::{
    binop_findings_spec, binop_value_spec, bits_or_unknown, drops_suspicious,
    has_shift_or_precision, is_shift_or_precision, raw_result_spec,
};
use crate::transfer::call::{call_findings_spec, call_values_spec};
use crate::transfer::context::Ctx;
use crate::transfer::describe::describe_spec;
use crate::transfer::emit::{
    emit_arithmetic_spec, emit_rounding_spec, make_origin_spec, rounding_origin_spec,
};
use crate::transfer::eval::{
    cast_findings_spec, cast_value_spec, constant_spec, eval_each_spec, eval_spec,
    first_or_top_spec, literal_width, narrowed_spec,
};
use crate::transfer::risks::{carries, coherent, lemma_cast};
use crate::u256::{lemma_u256_view, U256};
use vstd::arithmetic::power2::pow2;
use vstd::prelude::*;

verus! {

/// Whether an expression is made of another, directly.
pub open spec fn is_part(part: Exp, e: Exp) -> bool {
    match e.value {
        UnannotatedExp::Freeze(inner)
        | UnannotatedExp::Dereference(inner)
        | UnannotatedExp::Borrow(inner, _)
        | UnannotatedExp::Not(inner)
        | UnannotatedExp::Cast(inner, _) => part == *inner,
        UnannotatedExp::Multiple(values) => values@.contains(part),
        UnannotatedExp::Vector(values, _) => values@.contains(part),
        UnannotatedExp::Pack(values, _) => values@.contains(part),
        UnannotatedExp::PackVariant(values, _) => values@.contains(part),
        UnannotatedExp::ModuleCall(call) => call.arguments@.contains(part),
        UnannotatedExp::BinopExp(lhs, _, rhs) => part == *lhs || part == *rhs,
        _ => false,
    }
}

proof fn lemma_each_reports(
    c: Ctx,
    es: Seq<Exp>,
    n: nat,
    st: AbstractStateView,
    i: int,
    finding: SecurityFindingView,
)
    requires
        0 <= i < n <= es.len(),
        eval_spec(c, es[i], st).1.contains(finding),
    ensures
        eval_each_spec(c, es, n, st).1.contains(finding),
    decreases n,
{
    let before = eval_each_spec(c, es, (n - 1) as nat, st).1;
    let more = eval_spec(c, es[n - 1], st).1;
    if i < n - 1 {
        lemma_each_reports(c, es, (n - 1) as nat, st, i, finding);
        lemma_in_first(before, more, finding);
    } else {
        lemma_in_second(before, more, finding);
    }
}

proof fn lemma_in_first(
    a: Seq<SecurityFindingView>,
    b: Seq<SecurityFindingView>,
    finding: SecurityFindingView,
)
    requires
        a.contains(finding),
    ensures
        (a + b).contains(finding),
{
    let i = choose|i: int| 0 <= i < a.len() && a[i] == finding;
    assert((a + b)[i] == finding);
}

proof fn lemma_in_second(
    a: Seq<SecurityFindingView>,
    b: Seq<SecurityFindingView>,
    finding: SecurityFindingView,
)
    requires
        b.contains(finding),
    ensures
        (a + b).contains(finding),
{
    let i = choose|i: int| 0 <= i < b.len() && b[i] == finding;
    assert((a + b)[a.len() + i] == finding);
}

/// What is found in a part of an expression is found in the expression.
pub proof fn findings_of_parts_are_kept(
    c: Ctx,
    e: Exp,
    part: Exp,
    st: AbstractStateView,
    finding: SecurityFindingView,
)
    requires
        is_part(part, e),
        eval_spec(c, part, st).1.contains(finding),
    ensures
        eval_spec(c, e, st).1.contains(finding),
{
    match e.value {
        UnannotatedExp::Multiple(values) => {
            let i = choose|i: int| 0 <= i < values@.len() && values@[i] == part;
            lemma_each_reports(c, values@, values@.len(), st, i, finding);
        },
        UnannotatedExp::Vector(values, _) => {
            let i = choose|i: int| 0 <= i < values@.len() && values@[i] == part;
            lemma_each_reports(c, values@, values@.len(), st, i, finding);
        },
        UnannotatedExp::Pack(values, _) => {
            let i = choose|i: int| 0 <= i < values@.len() && values@[i] == part;
            lemma_each_reports(c, values@, values@.len(), st, i, finding);
        },
        UnannotatedExp::PackVariant(values, _) => {
            let i = choose|i: int| 0 <= i < values@.len() && values@[i] == part;
            lemma_each_reports(c, values@, values@.len(), st, i, finding);
        },
        UnannotatedExp::ModuleCall(call) => {
            let all = call.arguments@;
            let i = choose|i: int| 0 <= i < all.len() && all[i] == part;
            lemma_each_reports(c, all, all.len(), st, i, finding);
            let (arguments, found) = eval_each_spec(c, all, all.len(), st);
            lemma_in_first(found, call_findings_spec(c, *call, e, arguments, st), finding);
        },
        UnannotatedExp::Cast(inner, builtin) => {
            let (values, found) = eval_spec(c, *inner, st);
            let cast = cast_value_spec(c, e, *inner, first_or_top_spec(values), builtin, st);
            lemma_in_first(found, cast_findings_spec(c, e, cast, st), finding);
        },
        UnannotatedExp::BinopExp(lhs, op, rhs) => {
            let (lefts, left) = eval_spec(c, *lhs, st);
            let (rights, right) = eval_spec(c, *rhs, st);
            let more = binop_findings_spec(
                c,
                e,
                *lhs,
                first_or_top_spec(lefts),
                op,
                *rhs,
                first_or_top_spec(rights),
                st,
            );
            if part == *lhs {
                lemma_in_first(left, right, finding);
            } else {
                lemma_in_second(left, right, finding);
            }
            lemma_in_first(left + right, more, finding);
        },
        _ => {},
    }
}

proof fn lemma_each_value(c: Ctx, es: Seq<Exp>, n: nat, st: AbstractStateView, i: int)
    requires
        0 <= i < n <= es.len(),
    ensures
        eval_each_spec(c, es, n, st).0.len() == n,
        eval_each_spec(c, es, n, st).0[i] == first_or_top_spec(eval_spec(c, es[i], st).0),
    decreases n,
{
    if n > 1 {
        lemma_each_value(
            c,
            es,
            (n - 1) as nat,
            st,
            if i < n - 1 {
                i
            } else {
                0
            },
        );
    } else {
        assert(eval_each_spec(c, es, 0, st).0.len() == 0);
    }
}

/// The arguments of a call are handed to it as they come out, each by its first value; what the call
/// does with them is reported after what is found in them.
pub proof fn calls_get_their_arguments(
    c: Ctx,
    e: Exp,
    st: AbstractStateView,
    i: int,
    arguments: Seq<ValueStateView>,
    finding: SecurityFindingView,
)
    requires
        e.value is ModuleCall,
        0 <= i < e.value->ModuleCall_0.arguments@.len(),
        arguments.len() == e.value->ModuleCall_0.arguments@.len(),
        forall|k: int|
            0 <= k < arguments.len() ==> #[trigger] arguments[k] == {
                let values = eval_spec(c, e.value->ModuleCall_0.arguments@[k], st).0;
                if values.len() > 0 {
                    values[0]
                } else {
                    ValueStateView::top_spec()
                }
            },
    ensures
        eval_spec(c, e, st).0 == call_values_spec(c, *e.value->ModuleCall_0, e, arguments, st),
        call_findings_spec(c, *e.value->ModuleCall_0, e, arguments, st).contains(finding)
            ==> eval_spec(c, e, st).1.contains(finding),
{
    let call = e.value->ModuleCall_0;
    let all = call.arguments@;
    let (got, found) = eval_each_spec(c, all, all.len(), st);
    assert(got =~= arguments) by {
        lemma_each_value(c, all, all.len(), st, 0);
        assert forall|k: int| 0 <= k < got.len() implies got[k] == arguments[k] by {
            lemma_each_value(c, all, all.len(), st, k);
        }
    }
    if call_findings_spec(c, *call, e, arguments, st).contains(finding) {
        lemma_in_second(found, call_findings_spec(c, *call, e, arguments, st), finding);
    }
}

/// What an expression comes out as where it is no operation: a literal is its number with the width
/// of its type, a variable what is known of it, a reference what it refers to; a negation is one of
/// two truth values; and of what is packed, put into a vector or named as a constant only the type
/// is known.
pub proof fn plain_expressions_are_what_they_say(c: Ctx, e: Exp, st: AbstractStateView)
    ensures
        ({
            let values = eval_spec(c, e, st).0;
            match e.value {
                UnannotatedExp::Value(literal) => values == seq![constant_spec(literal)]
                    && eval_spec(c, e, st).1.len() == 0,
                UnannotatedExp::Move(var)
                | UnannotatedExp::Copy(var)
                | UnannotatedExp::BorrowLocal(var) => {
                    &&& values.len() == 1
                    &&& st.locals.contains_key(var.index) ==> values[0] == st.locals[var.index]
                    &&& !st.locals.contains_key(var.index) && var.index
                        < c.function.vars@.len() && single_width_spec(
                        c.function.vars@[var.index as int].ty,
                    ) is Some ==> values[0] == ValueStateView::of_width(
                        single_width_spec(c.function.vars@[var.index as int].ty)->0,
                    )
                },
                UnannotatedExp::Freeze(inner)
                | UnannotatedExp::Dereference(inner)
                | UnannotatedExp::Borrow(inner, _) => values == eval_spec(c, *inner, st).0,
                UnannotatedExp::Not(_) => values.len() == 1 && values[0].interval.lower is Some
                    && values[0].interval.lower->0@ == 0 && values[0].interval.upper is Some
                    && values[0].interval.upper->0@ == 1 && values[0].risky_origins.len() == 0,
                UnannotatedExp::Vector(_, _)
                | UnannotatedExp::Pack(_, _)
                | UnannotatedExp::PackVariant(_, _)
                | UnannotatedExp::Constant(_) => values == seq![ValueStateView::of_type(e.ty)],
                UnannotatedExp::BinopExp(lhs, op, rhs) => {
                    let lefts = eval_spec(c, *lhs, st).0;
                    let rights = eval_spec(c, *rhs, st).0;
                    lefts.len() > 0 && rights.len() > 0 ==> values == seq![
                        binop_value_spec(c, e, *lhs, lefts[0], op, *rhs, rights[0], st),
                    ]
                },
                UnannotatedExp::Cast(inner, builtin) => {
                    let inners = eval_spec(c, *inner, st).0;
                    inners.len() > 0 ==> values == seq![
                        cast_value_spec(c, e, *inner, inners[0], builtin, st),
                    ]
                },
                UnannotatedExp::ErrorConstant => values.len() == 1 && values[0].interval.lower
                    is Some && values[0].interval.lower->0@ == 0 && values[0].interval.upper
                    == values[0].interval.lower,
                UnannotatedExp::Unit
                | UnannotatedExp::Unreachable(_)
                | UnannotatedExp::UnresolvedError(_) => values.len() == 0,
                _ => true,
            }
        }),
{
    mask_keeps_what_fits(U256::zero_spec(), 256);
    lemma_pow2_widths();
}

/// A truth value is zero or one, and of any other literal that is no integer nothing is known.
pub proof fn other_literals_are_not_known(literal: Value)
    requires
        integer_value_spec(literal) is None,
    ensures
        ({
            let value = constant_spec(literal);
            &&& literal is Bool ==> value.interval.lower is Some && value.interval.lower->0@ == 0
                && value.interval.upper is Some && value.interval.upper->0@ == 1
            &&& literal !is Bool ==> value.interval.lower is None && value.interval.upper is None
            &&& !value.interval.bottom
            &&& value.bit_facts is None
            &&& value.formula_facts is None
            &&& value.risky_origins.len() == 0
            &&& value.parameter_dependencies == Set::<usize>::empty()
        }),
{
}

/// A literal is known: its range has one number, which is the literal's.
pub proof fn literals_are_known(literal: Value, n: U256)
    requires
        integer_value_spec(literal) == Some(n),
    ensures
        ({
            let value = constant_spec(literal);
            &&& value.interval.lower is Some && value.interval.lower->0@ == n@
            &&& value.interval.upper is Some && value.interval.upper->0@ == n@
            &&& !value.interval.bottom
            &&& value.bit_facts is Some
            &&& literal is U8 ==> value.bit_facts->0.width == 8
            &&& literal is U16 ==> value.bit_facts->0.width == 16
            &&& literal is U32 ==> value.bit_facts->0.width == 32
            &&& literal is U64 ==> value.bit_facts->0.width == 64
            &&& literal is U128 ==> value.bit_facts->0.width == 128
            &&& literal is U256 ==> value.bit_facts->0.width == 256
            &&& value.risky_origins.len() == 0
            &&& value.formula_facts is None
        }),
{
    let width = literal_width(literal);
    uint_max_is_all_ones(width);
    lemma_pow2_widths();
    lemma_u256_view(n);
    mask_keeps_what_fits(n, width);
}

/// A cast to an integer type carries the risk of a narrowing cast exactly where the range of the
/// value does not show that it fits. It keeps the other risks, except those of bitwise arithmetic,
/// and cuts the range to what fits.
pub proof fn casts_report_what_may_not_fit(
    c: Ctx,
    exp: Exp,
    inner: Exp,
    value: ValueStateView,
    builtin: BuiltinTypeName,
    st: AbstractStateView,
    k: int,
    n: nat,
)
    requires
        coherent(value.risky_origins),
        builtin_width_spec(builtin) is Some,
    ensures
        ({
            let width = builtin_width_spec(builtin)->0;
            let max = pow2(width as nat) - 1;
            let cast = cast_value_spec(c, exp, inner, value, builtin, st);
            let origins = cast.risky_origins;
            let fits = value.interval.upper is Some && value.interval.upper->0@ <= max;
            let key = origin_key_spec(RiskKind::ReachableNarrowCast, exp.loc);
            &&& !fits ==> carries(origins, key)
            &&& 0 <= k < origins.len() ==> {
                &&& origins[k].kind !is SuspiciousBitwiseArithmetic
                &&& value.risky_origins.contains(origins[k]) || (!fits
                    && origins[k].kind is ReachableNarrowCast && origins[k].loc == exp.loc
                    && origins[k].key == key && origins[k].width == Some(width)
                    && origins[k].threshold is Some && origins[k].threshold->0@ == max)
            }
            &&& 0 <= k < value.risky_origins.len()
                && value.risky_origins[k].kind !is SuspiciousBitwiseArithmetic
                ==> origins.contains(value.risky_origins[k])
            &&& cast.interval.contains(n) ==> value.interval.contains(n) && n <= max
            &&& value.interval.contains(n) && n <= max && value.bit_facts is None
                ==> cast.interval.contains(n)
            &&& cast.bit_facts is Some && cast.bit_facts->0.width == width
            &&& cast.formula_facts == value.formula_facts
            &&& cast.parameter_dependencies == value.parameter_dependencies
            &&& cast.term == value.term
        }),
{
    reveal(cast_value_spec);
    reveal(make_origin_spec);
    let width = builtin_width_spec(builtin)->0;
    uint_max_is_all_ones(width);
    let max = uint_max_spec(width);
    let narrowed = narrowed_spec(c, exp, inner, value, st, width);
    let cast = cast_value_spec(c, exp, inner, value, builtin, st);
    let keep = |o: RiskOriginView| o.kind !is SuspiciousBitwiseArithmetic;
    let all = narrowed.risky_origins;
    let origins = cast.risky_origins;
    if 0 <= k < origins.len() {
        all.lemma_filter_contains_rev(keep, origins[k]);
        let m = choose|m: int| 0 <= m < all.len() && all[m] == origins[k];
        if m < value.risky_origins.len() {
            assert(value.risky_origins[m] == origins[k]);
        }
    }
    if 0 <= k < value.risky_origins.len()
        && value.risky_origins[k].kind !is SuspiciousBitwiseArithmetic {
        assert(all[k] == value.risky_origins[k]);
        all.lemma_filter_contains(keep, k);
    }
    lemma_cast(c, exp, inner, value, builtin, st, RiskKind::ReachableNarrowCast, exp.loc);
    lemma_cast_range(c, exp, inner, value, builtin, st, n);
}

proof fn lemma_cast_range(
    c: Ctx,
    exp: Exp,
    inner: Exp,
    value: ValueStateView,
    builtin: BuiltinTypeName,
    st: AbstractStateView,
    n: nat,
)
    requires
        builtin_width_spec(builtin) is Some,
    ensures
        ({
            let width = builtin_width_spec(builtin)->0;
            let max = pow2(width as nat) - 1;
            let cast = cast_value_spec(c, exp, inner, value, builtin, st);
            &&& cast.interval.contains(n) ==> value.interval.contains(n) && n <= max
            &&& value.interval.contains(n) && n <= max && value.bit_facts is None
                ==> cast.interval.contains(n)
        }),
{
    reveal(cast_value_spec);
    let width = builtin_width_spec(builtin)->0;
    uint_max_is_all_ones(width);
    let max = uint_max_spec(width);
    let zero = U256::zero_spec();
    intersect_is_exact(value.interval, Some(zero), Some(max));
    let cut = value.interval.intersect_spec(Some(zero), Some(max));
    let facts = bits_or_unknown(value, width).narrowed(width);
    intersect_is_exact(cut, Some(facts.min_value_spec()), Some(facts.max_value_spec()));
    if value.bit_facts is None {
        lemma_unknown_narrowed(width);
    }
    assert(cast_value_spec(c, exp, inner, value, builtin, st).interval == cut.intersect_spec(
        Some(facts.min_value_spec()),
        Some(facts.max_value_spec()),
    ));
}

proof fn lemma_unknown_narrowed(width: u16)
    requires
        is_width(width),
    ensures
        ({
            let facts = BitFacts::unknown_spec(width).narrowed(width);
            facts.min_value_spec()@ == 0 && facts.max_value_spec()@ == uint_max_spec(width)@
        }),
{
    let mask = uint_max_spec(width);
    let zero = U256::zero_spec();
    let facts = BitFacts::unknown_spec(width).narrowed(width);
    assert forall|k: nat| k < 256 implies #[trigger] bit(facts.min_value_spec()@, k) == bit(
        zero@,
        k,
    ) by {
        nothing_but_the_type_is_known(width, k);
        joined_facts_are_tight(
            BitFacts::unknown_spec(width),
            BitFacts::unknown_spec(width),
            width,
            zero,
            k,
        );
        lemma_bit_ops(facts.known_one, mask, k);
        lemma_bit_of_zero(k);
    }
    lemma_bits_determine(facts.min_value_spec(), zero);
    assert forall|k: nat| k < 256 implies #[trigger] bit(facts.max_value_spec()@, k) == bit(
        mask@,
        k,
    ) by {
        nothing_but_the_type_is_known(width, k);
        joined_facts_are_tight(
            BitFacts::unknown_spec(width),
            BitFacts::unknown_spec(width),
            width,
            zero,
            k,
        );
        lemma_bit_mask(width, k);
        lemma_bit_ops(mask, complement(facts.known_zero), k);
        lemma_bit_complement(facts.known_zero, k);
    }
    lemma_bits_determine(facts.max_value_spec(), mask);
}

/// A cast to a type that is no integer type changes nothing but that risks of bitwise arithmetic are
/// dropped.
pub proof fn other_casts_keep_the_value(
    c: Ctx,
    exp: Exp,
    inner: Exp,
    value: ValueStateView,
    builtin: BuiltinTypeName,
    st: AbstractStateView,
)
    requires
        builtin_width_spec(builtin) is None,
    ensures
        ({
            let cast = cast_value_spec(c, exp, inner, value, builtin, st);
            &&& cast.interval == value.interval
            &&& cast.bit_facts == value.bit_facts
            &&& cast.formula_facts == value.formula_facts
            &&& cast.risky_origins == value.risky_origins.filter(
                |o: RiskOriginView| o.kind !is SuspiciousBitwiseArithmetic,
            )
        }),
{
    reveal(cast_value_spec);
}

/// The risks of an operand that arithmetic tells of.
pub open spec fn told_risks(origins: Seq<RiskOriginView>, graver: bool) -> Seq<RiskOriginView> {
    origins.filter(
        |o: RiskOriginView|
            is_told_in_arithmetic(o.kind, graver) && !is_left_to_callers(
                o,
                SinkKind::ArithmeticUse,
            ),
    )
}

/// Whether an operator is arithmetic on integers that a risky operand can spoil.
pub open spec fn is_computing(op: BinOp) -> bool {
    op is Add || op is Sub || op is Mul || op is Div || op is Mod || op is Shl || op is Shr
}

/// Arithmetic tells of the risks of its left operand, then of those of its right one, each at the
/// place of the operation; then of operands that were rounded in different directions. Comparisons,
/// bitwise and logical operations tell of nothing.
pub proof fn arithmetic_tells_of_its_operands(
    c: Ctx,
    exp: Exp,
    lhs_exp: Exp,
    lhs: ValueStateView,
    op: BinOp,
    rhs_exp: Exp,
    rhs: ValueStateView,
    st: AbstractStateView,
    i: int,
)
    requires
        c.mode is Findings,
    ensures
        ({
            let found = binop_findings_spec(c, exp, lhs_exp, lhs, op, rhs_exp, rhs, st);
            let value = binop_value_spec(c, exp, lhs_exp, lhs, op, rhs_exp, rhs, st);
            let graver = op is Shl || op is Shr || hold_a_graver_risk(value.risky_origins);
            let left = told_risks(lhs.risky_origins, graver);
            let right = told_risks(rhs.risky_origins, graver);
            let clashes: int = (if was_rounded_both_ways(lhs) {
                1int
            } else {
                0
            }) + (if was_rounded_both_ways(rhs) {
                1int
            } else {
                0
            });
            let detail = Some(describe_spec(c.function, exp));
            &&& !is_computing(op) ==> found.len() == 0
            &&& is_computing(op) ==> {
                &&& found.len() == left.len() + right.len() + clashes
                &&& 0 <= i < left.len() ==> tells_of(
                    found[i],
                    left[i],
                    exp.loc,
                    SinkKind::ArithmeticUse,
                    false,
                    detail,
                )
                &&& 0 <= i < right.len() ==> tells_of(
                    found[left.len() + i],
                    right[i],
                    exp.loc,
                    SinkKind::ArithmeticUse,
                    false,
                    detail,
                )
            }
        }),
{
    reveal(binop_findings_spec);
    let value = binop_value_spec(c, exp, lhs_exp, lhs, op, rhs_exp, rhs, st);
    let raw = raw_result_spec(c, exp, lhs_exp, lhs, op, rhs_exp, rhs, st);
    let graver = op is Shl || op is Shr || hold_a_graver_risk(value.risky_origins);
    let detail = Some(describe_spec(c.function, exp));
    lemma_graver(c, exp, lhs_exp, lhs, op, rhs_exp, rhs, st);
    let (l, r) = (lhs.risky_origins, rhs.risky_origins);
    each_risk_of_an_operand_is_told(c, l, l.len(), exp.loc, st, detail, graver);
    each_risk_of_an_operand_is_told(c, r, r.len(), exp.loc, st, detail, graver);
    assert(l.take(l.len() as int) =~= l);
    assert(r.take(r.len() as int) =~= r);
    let a = emit_arithmetic_spec(c, l, l.len(), exp.loc, st, detail, graver);
    let b = emit_arithmetic_spec(c, r, r.len(), exp.loc, st, detail, graver);
    let x = emit_rounding_spec(c, lhs, exp.loc, SinkKind::ArithmeticUse, false, st, detail);
    let y = emit_rounding_spec(c, rhs, exp.loc, SinkKind::ArithmeticUse, false, st, detail);
    assert(is_computing(op) ==> binop_findings_spec(
        c,
        exp,
        lhs_exp,
        lhs,
        op,
        rhs_exp,
        rhs,
        st,
    ) == a + b + x + y);
    assert(x.len() == if was_rounded_both_ways(lhs) {
        1int
    } else {
        0
    }) by {
        reveal(rounding_origin_spec);
    }
    assert(y.len() == if was_rounded_both_ways(rhs) {
        1int
    } else {
        0
    }) by {
        reveal(rounding_origin_spec);
    }
}

proof fn lemma_graver(
    c: Ctx,
    exp: Exp,
    lhs_exp: Exp,
    lhs: ValueStateView,
    op: BinOp,
    rhs_exp: Exp,
    rhs: ValueStateView,
    st: AbstractStateView,
)
    ensures
        ({
            let value = binop_value_spec(c, exp, lhs_exp, lhs, op, rhs_exp, rhs, st);
            let raw = raw_result_spec(c, exp, lhs_exp, lhs, op, rhs_exp, rhs, st);
            drops_suspicious(op, raw.risky_origins) <==> op is Shl || op is Shr
                || hold_a_graver_risk(value.risky_origins)
        }),
{
    reveal(binop_value_spec);
    let value = binop_value_spec(c, exp, lhs_exp, lhs, op, rhs_exp, rhs, st);
    let raw = raw_result_spec(c, exp, lhs_exp, lhs, op, rhs_exp, rhs, st);
    let keep = |o: RiskOriginView| o.kind !is SuspiciousBitwiseArithmetic;
    let all = raw.risky_origins;
    let left = value.risky_origins;
    if has_shift_or_precision(all) {
        let i = choose|i: int|
            0 <= i < all.len() && is_shift_or_precision((#[trigger] all[i]).kind);
        all.lemma_filter_contains(keep, i);
        let m = choose|m: int| 0 <= m < left.len() && left[m] == all[i];
        assert(hold_a_graver_risk(left));
    }
    if hold_a_graver_risk(left) {
        let i = choose|i: int|
            0 <= i < left.len() && ((#[trigger] left[i]).kind is ReachableShiftTruncation
                || left[i].kind is FakeCheckedShift || left[i].kind is InvalidShiftCount
                || left[i].kind is ReachableLossyRightShift);
        assert(all.contains(left[i])) by {
            if left != all {
                all.lemma_filter_contains_rev(keep, left[i]);
            }
        }
        let m = choose|m: int| 0 <= m < all.len() && all[m] == left[i];
        assert(is_shift_or_precision(all[m].kind));
    }
}

} // verus!
