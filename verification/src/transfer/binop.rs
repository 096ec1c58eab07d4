//! Binary operations.

use crate::ast::{BinOp, Exp, Var};
use crate::domain::bit_facts::BitFacts;
use crate::domain::formula::{ExprOp, FormulaFacts, RoundingMode};
use crate::domain::interval::Interval;
use crate::domain::risk::{
    push_new, push_origin, ConstraintOp, PathFactView, RiskKind, RiskOrigin, RiskOriginView,
    SymbolicTerm, SymbolicTermView,
};
use crate::domain::state::{AbstractState, AbstractStateView};
use crate::domain::value::{ValueState, ValueStateView};
use crate::domain::widths::{type_width, type_width_spec, uint_max, uint_max_spec, width_mask};
use crate::model::{views, Dup};
use crate::report::{SecurityFinding, SecurityFindingView, SinkKind};
use crate::rules::fake_checked_shift::{guard_is_weaker_spec, guard_is_weaker_than_threshold};
use crate::rules::invalid_shift_count::{count_condition, count_condition_spec};
use crate::rules::lossy_right_shift::{
    discarded_mask, discarded_mask_spec, is_lossy, lossless_condition, lossless_condition_spec,
};
use crate::rules::shift_truncation::{
    no_truncation_threshold, no_truncation_threshold_spec, truncation_condition,
    truncation_condition_spec,
};
use crate::transfer::context::{fold, fold_spec, Ctx, FunctionAnalyzer};
use crate::transfer::describe::{describe, describe_spec, extract_var, extract_var_spec};
use crate::transfer::emit::{
    emit_arithmetic_spec, emit_rounding_spec, make_origin_spec, weak_denominator_spec,
};
use crate::transfer::formulas::{combine_formula, combine_spec};
use crate::u256::U256;
use vstd::prelude::*;

verus! {

/// All values of a type of this width; anything where the width is not known.
pub open spec fn full_interval_spec(width: Option<u16>) -> Interval {
    match width {
        Some(width) => Interval::range(U256::zero_spec(), uint_max_spec(width)),
        None => Interval::top_spec(),
    }
}

pub fn full_interval(width: Option<u16>) -> (r: Interval)
    ensures
        r == full_interval_spec(width),
{
    match width {
        Some(width) => Interval::between(U256::zero(), uint_max(width)),
        None => Interval::top(),
    }
}

/// The least result of a sum, a difference or a product of two numbers, the first at least `ll`,
/// the second between `rl` and `ru`.
pub open spec fn least_result_spec(op: BinOp, ll: U256, rl: U256, ru: U256) -> Option<U256> {
    if op is Sub {
        match ll.sub_spec(ru) {
            Some(lower) => Some(lower),
            None => Some(U256::zero_spec()),
        }
    } else {
        fold_spec(op, ll, rl)
    }
}

fn least_result(op: BinOp, ll: U256, rl: U256, ru: U256) -> (r: Option<U256>)
    ensures
        r == least_result_spec(op, ll, rl, ru),
{
    match op {
        BinOp::Sub => match ll.checked_sub(ru) {
            Some(lower) => Some(lower),
            None => Some(U256::zero()),
        },
        _ => fold(op, ll, rl),
    }
}

/// The greatest result of a sum, a difference or a product of two numbers, the first at most `lu`,
/// the second between `rl` and `ru`.
pub open spec fn greatest_result_spec(op: BinOp, lu: U256, rl: U256, ru: U256) -> Option<U256> {
    if op is Sub {
        lu.sub_spec(rl)
    } else {
        fold_spec(op, lu, ru)
    }
}

fn greatest_result(op: BinOp, lu: U256, rl: U256, ru: U256) -> (r: Option<U256>)
    ensures
        r == greatest_result_spec(op, lu, rl, ru),
{
    match op {
        BinOp::Sub => lu.checked_sub(rl),
        _ => fold(op, lu, ru),
    }
}

/// The range of a sum, a difference or a product: from the least result to the greatest, where all
/// ends are known and nothing overflows. A difference falls with its second operand, and is never
/// below zero.
pub open spec fn checked_interval_spec(
    l: Interval,
    r: Interval,
    width: Option<u16>,
    op: BinOp,
) -> Interval {
    match (width, l.lower, l.upper, r.lower, r.upper) {
        (Some(w), Some(ll), Some(lu), Some(rl), Some(ru)) => match (
            least_result_spec(op, ll, rl, ru),
            greatest_result_spec(op, lu, rl, ru),
        ) {
            (Some(lower), Some(upper)) => Interval::range(lower, upper.min_spec(uint_max_spec(w))),
            _ => full_interval_spec(width),
        },
        _ => full_interval_spec(width),
    }
}

pub fn checked_binary_interval(l: &Interval, r: &Interval, width: Option<u16>, op: BinOp) -> (result:
    Interval)
    ensures
        result == checked_interval_spec(*l, *r, width, op),
{
    let Some(w) = width else {
        return Interval::top();
    };
    match (l.lower, l.upper, r.lower, r.upper) {
        (Some(ll), Some(lu), Some(rl), Some(ru)) => match (
            least_result(op, ll, rl, ru),
            greatest_result(op, lu, rl, ru),
        ) {
            (Some(lower), Some(upper)) => Interval::between(lower, upper.min(uint_max(w))),
            _ => full_interval(width),
        },
        _ => full_interval(width),
    }
}

/// The range of a quotient.
pub open spec fn div_interval_spec(l: Interval, r: Interval, width: Option<u16>) -> Interval {
    match (l.lower, l.upper, r.lower, r.upper) {
        (Some(lo), Some(hi), Some(rlo), Some(rhi)) => if r.positive_spec() {
            Interval {
                lower: lo.div_spec(rhi),
                upper: hi.div_spec(rlo),
                bottom: false,
            }
        } else {
            full_interval_spec(width)
        },
        _ => full_interval_spec(width),
    }
}

pub fn div_interval(l: &Interval, r: &Interval, width: Option<u16>) -> (result: Interval)
    ensures
        result == div_interval_spec(*l, *r, width),
{
    match (l.lower, l.upper, r.lower, r.upper) {
        (Some(lo), Some(hi), Some(rlo), Some(rhi)) => {
            if r.positive() {
                return Interval {
                    lower: lo.checked_div(rhi),
                    upper: hi.checked_div(rlo),
                    bottom: false,
                };
            }
        },
        _ => {},
    }
    full_interval(width)
}

/// The known bits of an arithmetic result: all, where both operands are known.
pub open spec fn numeric_bits_spec(
    lhs: ValueStateView,
    rhs: ValueStateView,
    width: Option<u16>,
    op: BinOp,
) -> Option<BitFacts> {
    match (width, lhs.exact_value_spec(), rhs.exact_value_spec()) {
        (Some(width), Some(l), Some(r)) => match fold_spec(op, l, r) {
            Some(result) => Some(BitFacts::exact_spec(width, result)),
            None => None,
        },
        _ => None,
    }
}

pub fn derive_numeric_bit_facts(
    lhs: &ValueState,
    rhs: &ValueState,
    width: Option<u16>,
    op: BinOp,
) -> (r: Option<BitFacts>)
    ensures
        r == numeric_bits_spec(lhs@, rhs@, width, op),
{
    match (width, lhs.exact_value(), rhs.exact_value()) {
        (Some(width), Some(l), Some(r)) => match fold(op, l, r) {
            Some(result) => Some(BitFacts::exact(width, result)),
            None => None,
        },
        _ => None,
    }
}

/// The known bits of an operand; none but the width where nothing is known.
pub open spec fn bits_or_unknown(value: ValueStateView, width: u16) -> BitFacts {
    match value.bit_facts {
        Some(facts) => facts,
        None => BitFacts::unknown_spec(width),
    }
}

/// The known bits of a bitwise result.
pub open spec fn bitwise_bits_spec(
    width: u16,
    lhs: ValueStateView,
    rhs: ValueStateView,
    op: BinOp,
) -> BitFacts {
    let l = bits_or_unknown(lhs, width);
    let r = bits_or_unknown(rhs, width);
    match op {
        BinOp::BitAnd => l.bitand_spec(r, width),
        BinOp::BitOr => l.bitor_spec(r, width),
        _ => l.bitxor_spec(r, width),
    }
}

pub fn bit_facts_for_binary(width: u16, lhs: &ValueState, rhs: &ValueState, op: BinOp) -> (r:
    BitFacts)
    ensures
        r == bitwise_bits_spec(width, lhs@, rhs@, op),
{
    let l: BitFacts = match lhs.bit_facts {
        Some(facts) => facts,
        None => BitFacts::unknown(width),
    };
    let r: BitFacts = match rhs.bit_facts {
        Some(facts) => facts,
        None => BitFacts::unknown(width),
    };
    match op {
        BinOp::BitAnd => l.bitand(&r, width),
        BinOp::BitOr => l.bitor(&r, width),
        _ => l.bitxor(&r, width),
    }
}

/// A result before its range, bits and formula are known: what both operands carry.
#[verifier::opaque]
pub open spec fn merged_spec(
    c: Ctx,
    exp: Exp,
    lhs: ValueStateView,
    rhs: ValueStateView,
) -> ValueStateView {
    ValueStateView {
        term: SymbolicTermView::Opaque(describe_spec(c.function, exp)),
        ..lhs.join_spec(rhs)
    }
}

/// The result of a sum, difference, product, quotient or remainder.
pub open spec fn arithmetic_spec(
    c: Ctx,
    exp: Exp,
    lhs: ValueStateView,
    op: BinOp,
    rhs_exp: Exp,
    rhs: ValueStateView,
    st: AbstractStateView,
) -> ValueStateView {
    let merged = merged_spec(c, exp, lhs, rhs);
    let width = type_width_spec(exp.ty);
    let text = describe_spec(c.function, exp);
    ValueStateView {
        interval: match op {
            BinOp::Div => div_interval_spec(lhs.interval, rhs.interval, width),
            BinOp::Mod => full_interval_spec(width),
            _ => checked_interval_spec(lhs.interval, rhs.interval, width, op),
        },
        bit_facts: numeric_bits_spec(lhs, rhs, width, op),
        formula_facts: combine_spec(expr_op(op), lhs, rhs, text),
        risky_origins: if op is Div {
            match weak_denominator_spec(c, exp, lhs, rhs, rhs_exp, st) {
                Some(origin) => push_new(merged.risky_origins, origin),
                None => merged.risky_origins,
            }
        } else {
            merged.risky_origins
        },
        ..merged
    }
}

/// The operation of an expression that an arithmetic operator stands for.
pub open spec fn expr_op(op: BinOp) -> ExprOp {
    match op {
        BinOp::Add => ExprOp::Add,
        BinOp::Sub => ExprOp::Sub,
        BinOp::Mul => ExprOp::Mul,
        BinOp::Div => ExprOp::Div,
        _ => ExprOp::Mod,
    }
}

/// The risk of a bitwise result that is not exactly known.
pub open spec fn suspicious_origin_spec(
    c: Ctx,
    exp: Exp,
    lhs_exp: Exp,
    lhs: ValueStateView,
    st: AbstractStateView,
    width: u16,
) -> RiskOriginView {
    make_origin_spec(
        c,
        RiskKind::SuspiciousBitwiseArithmetic,
        exp,
        lhs,
        lhs_exp,
        st,
        width,
        None,
        None,
        "Bitwise arithmetic result remains non-exact before downstream use"@,
        "Suspicious bitwise result may influence downstream arithmetic"@,
        false,
        None,
    )
}

/// The result of a bitwise operation.
pub open spec fn bitwise_spec(
    c: Ctx,
    exp: Exp,
    lhs_exp: Exp,
    lhs: ValueStateView,
    op: BinOp,
    rhs: ValueStateView,
    st: AbstractStateView,
) -> ValueStateView {
    let merged = merged_spec(c, exp, lhs, rhs);
    let text = describe_spec(c.function, exp);
    let ranged = match type_width_spec(exp.ty) {
        Some(width) => {
            let known = ValueStateView {
                bit_facts: Some(bitwise_bits_spec(width, lhs, rhs, op)),
                interval: Interval::range(U256::zero_spec(), uint_max_spec(width)),
                ..merged
            }.refined();
            if known.exact_value_spec() is None {
                ValueStateView {
                    risky_origins: push_new(
                        known.risky_origins,
                        suspicious_origin_spec(c, exp, lhs_exp, lhs, st, width),
                    ),
                    ..known
                }
            } else {
                known
            }
        },
        None => merged,
    };
    ValueStateView {
        formula_facts: match op {
            BinOp::BitAnd => combine_spec(ExprOp::Shl, lhs, rhs, text),
            BinOp::BitOr => combine_spec(ExprOp::Shr, lhs, rhs, text),
            _ => None,
        },
        ..ranged
    }
}

/// The amount of a shift, where it is known.
pub open spec fn shift_amount_spec(rhs: ValueStateView) -> Option<u8> {
    match rhs.exact_value_spec() {
        Some(v) => Some((v@ % 256) as u8),
        None => None,
    }
}

/// What a path fact about this variable leaves as its largest value.
pub open spec fn guard_of(fact: PathFactView, var: Var) -> Option<U256> {
    if fact.var != Some(var) {
        None
    } else {
        match fact.op {
            ConstraintOp::Lt => match fact.bound {
                Some(bound) => if bound == U256::zero_spec() {
                    Some(U256::zero_spec())
                } else {
                    bound.sub_spec(U256::one_spec())
                },
                None => None,
            },
            ConstraintOp::Le | ConstraintOp::Eq => fact.bound,
            _ => None,
        }
    }
}

/// The lesser of two bounds, where there are any.
pub open spec fn lesser(a: Option<U256>, b: Option<U256>) -> Option<U256> {
    match (a, b) {
        (Some(x), Some(y)) => Some(x.min_spec(y)),
        (Some(x), None) => Some(x),
        (None, y) => y,
    }
}

/// The least bound that the first `n` path facts leave to the variable.
pub open spec fn least_guard(facts: Seq<PathFactView>, var: Var, n: nat) -> Option<U256>
    decreases n,
{
    if n == 0 || n > facts.len() {
        None
    } else {
        lesser(least_guard(facts, var, (n - 1) as nat), guard_of(facts[n - 1], var))
    }
}

/// The strongest upper bound that path facts place on an expression that is a variable.
pub open spec fn strongest_upper_bound_spec(e: Exp, st: AbstractStateView) -> Option<U256> {
    match extract_var_spec(e) {
        Some(var) => least_guard(st.path_facts, var, st.path_facts.len()),
        None => None,
    }
}

/// The risk of a shift by at least the width.
pub open spec fn invalid_count_origin_spec(
    c: Ctx,
    exp: Exp,
    rhs_exp: Exp,
    rhs: ValueStateView,
    st: AbstractStateView,
    width: u16,
    amount: u8,
) -> RiskOriginView {
    make_origin_spec(
        c,
        RiskKind::InvalidShiftCount,
        exp,
        rhs,
        rhs_exp,
        st,
        width,
        Some(amount),
        None,
        count_condition_spec(amount, width),
        "Invalid shift count is reachable"@,
        false,
        None,
    )
}

/// The risk of a left shift that may lose high bits.
pub open spec fn truncation_origin_spec(
    c: Ctx,
    exp: Exp,
    lhs_exp: Exp,
    lhs: ValueStateView,
    st: AbstractStateView,
    width: u16,
    amount: u8,
) -> RiskOriginView {
    let threshold = no_truncation_threshold_spec(width, amount);
    let weak = guard_is_weaker_spec(strongest_upper_bound_spec(lhs_exp, st), threshold);
    make_origin_spec(
        c,
        if weak {
            RiskKind::FakeCheckedShift
        } else {
            RiskKind::ReachableShiftTruncation
        },
        exp,
        lhs,
        lhs_exp,
        st,
        width,
        Some(amount),
        Some(threshold),
        truncation_condition_spec(
            describe_spec(c.function, lhs_exp),
            threshold,
            width,
            amount,
        ),
        if weak {
            "Unsound checked-shift helper is reachable"@
        } else {
            "Reachable truncating left shift"@
        },
        weak,
        None,
    )
}

/// The risk of a right shift that may lose low bits.
pub open spec fn lossy_origin_spec(
    c: Ctx,
    exp: Exp,
    lhs_exp: Exp,
    lhs: ValueStateView,
    st: AbstractStateView,
    width: u16,
    amount: u8,
) -> RiskOriginView {
    make_origin_spec(
        c,
        RiskKind::ReachableLossyRightShift,
        exp,
        lhs,
        lhs_exp,
        st,
        width,
        Some(amount),
        None,
        lossless_condition_spec(
            describe_spec(c.function, lhs_exp),
            discarded_mask_spec(width, amount),
        ),
        "Right shift may discard non-zero low bits"@,
        false,
        Some(RoundingMode::RoundDown),
    )
}

/// The risk of a 256-bit shift by an amount that is not known.
pub open spec fn dynamic_origin_spec(
    c: Ctx,
    exp: Exp,
    rhs_exp: Exp,
    rhs: ValueStateView,
    st: AbstractStateView,
) -> RiskOriginView {
    make_origin_spec(
        c,
        RiskKind::DynamicU256Shift,
        exp,
        rhs,
        rhs_exp,
        st,
        256,
        None,
        None,
        describe_spec(c.function, rhs_exp) + " is a known shift count"@,
        "Dynamic shift count of a u256 value"@,
        false,
        None,
    )
}

/// A value of which only its width is known, with the risks that it carries.
pub open spec fn unknown_of_width(value: ValueStateView, width: u16) -> ValueStateView {
    ValueStateView {
        interval: Interval::range(U256::zero_spec(), uint_max_spec(width)),
        bit_facts: Some(BitFacts::unknown_spec(width)),
        ..value
    }
}

/// A value with one more risk, where its key is new.
pub open spec fn with_origin(value: ValueStateView, origin: RiskOriginView) -> ValueStateView {
    ValueStateView { risky_origins: push_new(value.risky_origins, origin), ..value }
}

/// Both ends of a range shifted by the same amount; all values of the width where an end is not
/// known.
pub open spec fn shifted_interval_spec(
    interval: Interval,
    left: bool,
    amount: u8,
    width: u16,
) -> Interval {
    match (interval.lower, interval.upper) {
        (Some(lo), Some(hi)) => if left {
            Interval::range(lo.shl_spec(amount as nat), hi.shl_spec(amount as nat))
        } else {
            Interval::range(lo.shr_spec(amount as nat), hi.shr_spec(amount as nat))
        },
        _ => full_interval_spec(Some(width)),
    }
}

/// The result of a shift by a known amount below the width that loses nothing at the top.
pub open spec fn shifted_spec(
    merged: ValueStateView,
    lhs: ValueStateView,
    left: bool,
    amount: u8,
    width: u16,
) -> ValueStateView {
    ValueStateView {
        interval: shifted_interval_spec(lhs.interval, left, amount, width),
        bit_facts: match lhs.bit_facts {
            Some(facts) => if left {
                Some(facts.shift_left_spec(amount, width))
            } else {
                Some(facts.shift_right_spec(amount, width))
            },
            None => None,
        },
        ..merged
    }.refined()
}

/// The result of a shift by an amount that is not known.
pub open spec fn dynamic_shift_spec(
    c: Ctx,
    exp: Exp,
    rhs_exp: Exp,
    rhs: ValueStateView,
    st: AbstractStateView,
    merged: ValueStateView,
    width: u16,
) -> ValueStateView {
    unknown_of_width(
        if width == 256 {
            with_origin(merged, dynamic_origin_spec(c, exp, rhs_exp, rhs, st))
        } else {
            merged
        },
        width,
    )
}

/// The result of a shift by at least the width.
pub open spec fn invalid_shift_spec(
    c: Ctx,
    exp: Exp,
    rhs_exp: Exp,
    rhs: ValueStateView,
    st: AbstractStateView,
    merged: ValueStateView,
    width: u16,
    amount: u8,
) -> ValueStateView {
    ValueStateView {
        interval: Interval::top_spec(),
        bit_facts: Some(BitFacts::unknown_spec(width)),
        ..with_origin(
            merged,
            invalid_count_origin_spec(c, exp, rhs_exp, rhs, st, width, amount),
        )
    }
}

/// The result of a left shift of a type of this width.
pub open spec fn shl_spec(
    c: Ctx,
    exp: Exp,
    lhs_exp: Exp,
    lhs: ValueStateView,
    rhs_exp: Exp,
    rhs: ValueStateView,
    st: AbstractStateView,
    width: u16,
) -> ValueStateView {
    let merged = merged_spec(c, exp, lhs, rhs);
    match shift_amount_spec(rhs) {
        None => dynamic_shift_spec(c, exp, rhs_exp, rhs, st, merged, width),
        Some(amount) => if amount >= width {
            invalid_shift_spec(c, exp, rhs_exp, rhs, st, merged, width, amount)
        } else if lhs.interval.at_most_spec(no_truncation_threshold_spec(width, amount)) {
            shifted_spec(merged, lhs, true, amount, width)
        } else {
            unknown_of_width(
                with_origin(
                    merged,
                    truncation_origin_spec(c, exp, lhs_exp, lhs, st, width, amount),
                ),
                width,
            )
        },
    }
}

/// The result of a right shift of a type of this width.
pub open spec fn shr_spec(
    c: Ctx,
    exp: Exp,
    lhs_exp: Exp,
    lhs: ValueStateView,
    rhs_exp: Exp,
    rhs: ValueStateView,
    st: AbstractStateView,
    width: u16,
) -> ValueStateView {
    let merged = merged_spec(c, exp, lhs, rhs);
    match shift_amount_spec(rhs) {
        None => dynamic_shift_spec(c, exp, rhs_exp, rhs, st, merged, width),
        Some(amount) => if amount >= width {
            invalid_shift_spec(c, exp, rhs_exp, rhs, st, merged, width, amount)
        } else {
            let shifted = shifted_spec(merged, lhs, false, amount, width);
            if is_lossy(lhs, width, amount) {
                with_origin(shifted, lossy_origin_spec(c, exp, lhs_exp, lhs, st, width, amount))
            } else {
                shifted
            }
        },
    }
}

/// The result of an operation, before risks that it makes superfluous are dropped.
#[verifier::opaque]
pub open spec fn raw_result_spec(
    c: Ctx,
    exp: Exp,
    lhs_exp: Exp,
    lhs: ValueStateView,
    op: BinOp,
    rhs_exp: Exp,
    rhs: ValueStateView,
    st: AbstractStateView,
) -> ValueStateView {
    let merged = merged_spec(c, exp, lhs, rhs);
    match op {
        BinOp::Add | BinOp::Sub | BinOp::Mul | BinOp::Div | BinOp::Mod => arithmetic_spec(
            c,
            exp,
            lhs,
            op,
            rhs_exp,
            rhs,
            st,
        ),
        BinOp::BitAnd | BinOp::BitOr | BinOp::Xor => bitwise_spec(
            c,
            exp,
            lhs_exp,
            lhs,
            op,
            rhs,
            st,
        ),
        BinOp::Shl | BinOp::Shr => ValueStateView {
            formula_facts: None,
            ..match type_width_spec(exp.ty) {
                Some(width) => if op is Shl {
                    shl_spec(c, exp, lhs_exp, lhs, rhs_exp, rhs, st, width)
                } else {
                    shr_spec(c, exp, lhs_exp, lhs, rhs_exp, rhs, st, width)
                },
                None => merged,
            }
        },
        BinOp::Eq
        | BinOp::Neq
        | BinOp::Lt
        | BinOp::Le
        | BinOp::Gt
        | BinOp::Ge
        | BinOp::And
        | BinOp::Or => ValueStateView {
            interval: Interval::range(U256::zero_spec(), U256::one_spec()),
            bit_facts: None,
            formula_facts: None,
            ..merged
        },
        BinOp::Range | BinOp::Implies | BinOp::Iff => ValueStateView {
            interval: Interval::top_spec(),
            bit_facts: None,
            formula_facts: None,
            ..merged
        },
    }
}

/// The risks that have to do with shifts or lost precision.
pub open spec fn is_shift_or_precision(kind: RiskKind) -> bool {
    kind is ReachableShiftTruncation || kind is FakeCheckedShift || kind is InvalidShiftCount
        || kind is ReachableLossyRightShift
}

pub open spec fn has_shift_or_precision(origins: Seq<RiskOriginView>) -> bool {
    exists|i: int| 0 <= i < origins.len() && is_shift_or_precision((#[trigger] origins[i]).kind)
}

/// The risks without those of bitwise arithmetic.
pub open spec fn without_suspicious(origins: Seq<RiskOriginView>) -> Seq<RiskOriginView> {
    origins.filter(|o: RiskOriginView| o.kind !is SuspiciousBitwiseArithmetic)
}

/// Whether risks of bitwise arithmetic are dropped from a result.
pub open spec fn drops_suspicious(op: BinOp, origins: Seq<RiskOriginView>) -> bool {
    op is Shl || op is Shr || has_shift_or_precision(origins)
}

/// Whether the operation is arithmetic that a risky operand can spoil.
pub open spec fn is_arithmetic(op: BinOp) -> bool {
    op is Add || op is Sub || op is Mul || op is Div || op is Mod || op is Shl || op is Shr
}

/// The result of an operation.
#[verifier::opaque]
pub open spec fn binop_value_spec(
    c: Ctx,
    exp: Exp,
    lhs_exp: Exp,
    lhs: ValueStateView,
    op: BinOp,
    rhs_exp: Exp,
    rhs: ValueStateView,
    st: AbstractStateView,
) -> ValueStateView {
    let raw = raw_result_spec(c, exp, lhs_exp, lhs, op, rhs_exp, rhs, st);
    if drops_suspicious(op, raw.risky_origins) {
        ValueStateView { risky_origins: without_suspicious(raw.risky_origins), ..raw }
    } else {
        raw
    }
}

/// What is reported when the operands of an operation carry risks.
#[verifier::opaque]
pub open spec fn binop_findings_spec(
    c: Ctx,
    exp: Exp,
    lhs_exp: Exp,
    lhs: ValueStateView,
    op: BinOp,
    rhs_exp: Exp,
    rhs: ValueStateView,
    st: AbstractStateView,
) -> Seq<SecurityFindingView> {
    let raw = raw_result_spec(c, exp, lhs_exp, lhs, op, rhs_exp, rhs, st);
    let drops = drops_suspicious(op, raw.risky_origins);
    let detail = Some(describe_spec(c.function, exp));
    if is_arithmetic(op) {
        emit_arithmetic_spec(
            c,
            lhs.risky_origins,
            lhs.risky_origins.len(),
            exp.loc,
            st,
            detail,
            drops,
        ) + emit_arithmetic_spec(
            c,
            rhs.risky_origins,
            rhs.risky_origins.len(),
            exp.loc,
            st,
            detail,
            drops,
        ) + emit_rounding_spec(c, lhs, exp.loc, SinkKind::ArithmeticUse, false, st, detail)
            + emit_rounding_spec(c, rhs, exp.loc, SinkKind::ArithmeticUse, false, st, detail)
    } else {
        Seq::empty()
    }
}

/// Drops the risks of bitwise arithmetic.
pub fn drop_suspicious(origins: &Vec<RiskOrigin>) -> (r: Vec<RiskOrigin>)
    ensures
        views(r@) == without_suspicious(views(origins@)),
{
    let ghost all = views(origins@);
    let ghost keep = |o: RiskOriginView| o.kind !is SuspiciousBitwiseArithmetic;
    let mut r: Vec<RiskOrigin> = Vec::new();
    let mut i: usize = 0;
    assert(views(r@) =~= all.take(0).filter(keep)) by {
        reveal(Seq::filter);
    }
    while i < origins.len()
        invariant
            i <= origins@.len(),
            all == views(origins@),
            keep == (|o: RiskOriginView| o.kind !is SuspiciousBitwiseArithmetic),
            views(r@) == all.take(i as int).filter(keep),
        decreases origins@.len() - i,
    {
        let ghost start = r@;
        assert(all.take(i + 1).drop_last() =~= all.take(i as int));
        proof {
            reveal(Seq::filter);
        }
        if origins[i].kind != RiskKind::SuspiciousBitwiseArithmetic {
            r.push(origins[i].dup());
            assert(views(r@) =~= views(start).push(all[i as int]));
        }
        i = i + 1;
    }
    assert(all.take(i as int) =~= all);
    r
}

fn any_shift_or_precision(origins: &Vec<RiskOrigin>) -> (r: bool)
    ensures
        r == has_shift_or_precision(views(origins@)),
{
    let mut i: usize = 0;
    while i < origins.len()
        invariant
            i <= origins@.len(),
            forall|j: int|
                0 <= j < i ==> !is_shift_or_precision((#[trigger] views(origins@)[j]).kind),
        decreases origins@.len() - i,
    {
        if matches!(
            origins[i].kind,
            RiskKind::ReachableShiftTruncation
                | RiskKind::FakeCheckedShift
                | RiskKind::InvalidShiftCount
                | RiskKind::ReachableLossyRightShift
        ) {
            assert(is_shift_or_precision(views(origins@)[i as int].kind));
            return true;
        }
        assert(!is_shift_or_precision(views(origins@)[i as int].kind));
        i = i + 1;
    }
    false
}

pub fn strongest_upper_bound(e: &Exp, state: &AbstractState) -> (r: Option<U256>)
    ensures
        r == strongest_upper_bound_spec(*e, state@),
{
    let Some(var) = extract_var(e) else {
        return None;
    };
    let mut best: Option<U256> = None;
    let mut i: usize = 0;
    while i < state.path_facts.len()
        invariant
            i <= state.path_facts@.len(),
            best == least_guard(state@.path_facts, var, i as nat),
        decreases state.path_facts@.len() - i,
    {
        let fact = &state.path_facts[i];
        let guard: Option<U256> = if fact.var != Some(var) {
            None
        } else {
            match fact.op {
                ConstraintOp::Lt => match fact.bound {
                    Some(bound) => if bound == U256::zero() {
                        Some(bound)
                    } else {
                        bound.checked_sub(U256::one())
                    },
                    None => None,
                },
                ConstraintOp::Le | ConstraintOp::Eq => fact.bound,
                _ => None,
            }
        };
        assert(guard == guard_of(state@.path_facts[i as int], var));
        best = match (best, guard) {
            (Some(x), Some(y)) => Some(x.min(y)),
            (Some(x), None) => Some(x),
            (None, y) => y,
        };
        i = i + 1;
    }
    best
}

fn shifted(merged: ValueState, lhs: &ValueState, left: bool, amount: u8, width: u16) -> (r:
    ValueState)
    ensures
        r@ == shifted_spec(merged@, lhs@, left, amount, width),
{
    let mut value: ValueState = merged;
    value.interval = match (lhs.interval.lower, lhs.interval.upper) {
        (Some(lo), Some(hi)) => if left {
            Interval::between(lo.shl(amount), hi.shl(amount))
        } else {
            Interval::between(lo.shr(amount), hi.shr(amount))
        },
        _ => full_interval(Some(width)),
    };
    value.bit_facts = match lhs.bit_facts {
        Some(facts) => if left {
            Some(facts.shift_left(amount, width))
        } else {
            Some(facts.shift_right(amount, width))
        },
        None => None,
    };
    value.refine_with_bit_facts();
    value
}

fn to_unknown_of_width(value: ValueState, width: u16) -> (r: ValueState)
    ensures
        r@ == unknown_of_width(value@, width),
{
    let mut value: ValueState = value;
    value.interval = Interval::between(U256::zero(), uint_max(width));
    value.bit_facts = Some(BitFacts::unknown(width));
    value
}

/// Adds a risk to a value.
pub fn add_origin(value: ValueState, origin: RiskOrigin) -> (r: ValueState)
    ensures
        r@ == with_origin(value@, origin@),
{
    let mut value: ValueState = value;
    push_origin(&mut value.risky_origins, origin);
    value
}

impl<'a> FunctionAnalyzer<'a> {
    fn merged(&self, exp: &Exp, lhs: &ValueState, rhs: &ValueState) -> (r: ValueState)
        ensures
            r@ == merged_spec(self@, *exp, lhs@, rhs@),
    {
        reveal(merged_spec);
        let mut value: ValueState = lhs.join(rhs);
        value.term = SymbolicTerm::Opaque(describe(self.function, exp));
        value
    }

    fn eval_arithmetic(
        &self,
        exp: &Exp,
        lhs: &ValueState,
        op: BinOp,
        rhs_exp: &Exp,
        rhs: &ValueState,
        state: &AbstractState,
    ) -> (r: ValueState)
        requires
            op is Add || op is Sub || op is Mul || op is Div || op is Mod,
        ensures
            r@ == arithmetic_spec(self@, *exp, lhs@, op, *rhs_exp, rhs@, state@),
    {
        let mut value: ValueState = self.merged(exp, lhs, rhs);
        let width: Option<u16> = type_width(&exp.ty);
        let text: String = describe(self.function, exp);
        let (interval, formula_op) = match op {
            BinOp::Add => (
                checked_binary_interval(&lhs.interval, &rhs.interval, width, op),
                ExprOp::Add,
            ),
            BinOp::Sub => (
                checked_binary_interval(&lhs.interval, &rhs.interval, width, op),
                ExprOp::Sub,
            ),
            BinOp::Mul => (
                checked_binary_interval(&lhs.interval, &rhs.interval, width, op),
                ExprOp::Mul,
            ),
            BinOp::Div => (div_interval(&lhs.interval, &rhs.interval, width), ExprOp::Div),
            _ => (full_interval(width), ExprOp::Mod),
        };
        value.interval = interval;
        value.bit_facts = derive_numeric_bit_facts(lhs, rhs, width, op);
        value.formula_facts = combine_formula(formula_op, lhs, rhs, text);
        if op == BinOp::Div {
            if let Some(origin) = self.make_weak_denominator_origin(
                exp,
                lhs,
                rhs,
                rhs_exp,
                state,
            ) {
                push_origin(&mut value.risky_origins, origin);
            }
        }
        value
    }

    fn eval_bitwise(
        &self,
        exp: &Exp,
        lhs_exp: &Exp,
        lhs: &ValueState,
        op: BinOp,
        rhs: &ValueState,
        state: &AbstractState,
    ) -> (r: ValueState)
        requires
            op is BitAnd || op is BitOr || op is Xor,
        ensures
            r@ == bitwise_spec(self@, *exp, *lhs_exp, lhs@, op, rhs@, state@),
    {
        let mut value: ValueState = self.merged(exp, lhs, rhs);
        if let Some(width) = type_width(&exp.ty) {
            value.bit_facts = Some(bit_facts_for_binary(width, lhs, rhs, op));
            value.interval = Interval::between(U256::zero(), width_mask(width));
            value.refine_with_bit_facts();
            if value.exact_value().is_none() {
                let origin: RiskOrigin = self.make_origin(
                    RiskKind::SuspiciousBitwiseArithmetic,
                    exp,
                    lhs,
                    lhs_exp,
                    state,
                    width,
                    None,
                    None,
                    "Bitwise arithmetic result remains non-exact before downstream use".to_owned(),
                    "Suspicious bitwise result may influence downstream arithmetic",
                    false,
                    None,
                );
                push_origin(&mut value.risky_origins, origin);
            }
        }
        let formula: Option<FormulaFacts> = match op {
            BinOp::BitAnd => combine_formula(
                ExprOp::Shl,
                lhs,
                rhs,
                describe(self.function, exp),
            ),
            BinOp::BitOr => combine_formula(
                ExprOp::Shr,
                lhs,
                rhs,
                describe(self.function, exp),
            ),
            _ => None,
        };
        value.formula_facts = formula;
        value
    }

    fn dynamic_shift(
        &self,
        exp: &Exp,
        rhs_exp: &Exp,
        rhs: &ValueState,
        state: &AbstractState,
        merged: ValueState,
        width: u16,
    ) -> (r: ValueState)
        ensures
            r@ == dynamic_shift_spec(self@, *exp, *rhs_exp, rhs@, state@, merged@, width),
    {
        if width == 256 {
            let mut condition: String = describe(self.function, rhs_exp);
            condition.append(" is a known shift count");
            let origin: RiskOrigin = self.make_origin(
                RiskKind::DynamicU256Shift,
                exp,
                rhs,
                rhs_exp,
                state,
                256,
                None,
                None,
                condition,
                "Dynamic shift count of a u256 value",
                false,
                None,
            );
            to_unknown_of_width(add_origin(merged, origin), width)
        } else {
            to_unknown_of_width(merged, width)
        }
    }

    fn invalid_shift(
        &self,
        exp: &Exp,
        rhs_exp: &Exp,
        rhs: &ValueState,
        state: &AbstractState,
        merged: ValueState,
        width: u16,
        amount: u8,
    ) -> (r: ValueState)
        ensures
            r@ == invalid_shift_spec(self@, *exp, *rhs_exp, rhs@, state@, merged@, width, amount),
    {
        let origin: RiskOrigin = self.make_origin(
            RiskKind::InvalidShiftCount,
            exp,
            rhs,
            rhs_exp,
            state,
            width,
            Some(amount),
            None,
            count_condition(amount, width),
            "Invalid shift count is reachable",
            false,
            None,
        );
        let mut value: ValueState = add_origin(merged, origin);
        value.interval = Interval::top();
        value.bit_facts = Some(BitFacts::unknown(width));
        value
    }

    fn eval_shl(
        &self,
        exp: &Exp,
        lhs_exp: &Exp,
        lhs: &ValueState,
        rhs_exp: &Exp,
        rhs: &ValueState,
        state: &AbstractState,
        width: u16,
    ) -> (r: ValueState)
        ensures
            r@ == shl_spec(self@, *exp, *lhs_exp, lhs@, *rhs_exp, rhs@, state@, width),
    {
        let merged: ValueState = self.merged(exp, lhs, rhs);
        let Some(exact) = rhs.exact_value() else {
            return self.dynamic_shift(exp, rhs_exp, rhs, state, merged, width);
        };
        let amount: u8 = exact.low_byte();
        if (amount as u16) >= width {
            return self.invalid_shift(exp, rhs_exp, rhs, state, merged, width, amount);
        }
        let threshold: U256 = no_truncation_threshold(width, amount);
        if lhs.interval.at_most(threshold) {
            return shifted(merged, lhs, true, amount, width);
        }
        let weak: bool = guard_is_weaker_than_threshold(
            strongest_upper_bound(lhs_exp, state),
            threshold,
        );
        let (kind, title) = if weak {
            (RiskKind::FakeCheckedShift, "Unsound checked-shift helper is reachable")
        } else {
            (RiskKind::ReachableShiftTruncation, "Reachable truncating left shift")
        };
        let text: String = describe(self.function, lhs_exp);
        let origin: RiskOrigin = self.make_origin(
            kind,
            exp,
            lhs,
            lhs_exp,
            state,
            width,
            Some(amount),
            Some(threshold),
            truncation_condition(text.as_str(), threshold, width, amount),
            title,
            weak,
            None,
        );
        to_unknown_of_width(add_origin(merged, origin), width)
    }

    fn eval_shr(
        &self,
        exp: &Exp,
        lhs_exp: &Exp,
        lhs: &ValueState,
        rhs_exp: &Exp,
        rhs: &ValueState,
        state: &AbstractState,
        width: u16,
    ) -> (r: ValueState)
        ensures
            r@ == shr_spec(self@, *exp, *lhs_exp, lhs@, *rhs_exp, rhs@, state@, width),
    {
        let merged: ValueState = self.merged(exp, lhs, rhs);
        let Some(exact) = rhs.exact_value() else {
            return self.dynamic_shift(exp, rhs_exp, rhs, state, merged, width);
        };
        let amount: u8 = exact.low_byte();
        if (amount as u16) >= width {
            return self.invalid_shift(exp, rhs_exp, rhs, state, merged, width, amount);
        }
        let value: ValueState = shifted(merged, lhs, false, amount, width);
        let mask: U256 = discarded_mask(width, amount);
        if mask != U256::zero() && lhs.may_have_non_zero_bits(mask) {
            let text: String = describe(self.function, lhs_exp);
            let origin: RiskOrigin = self.make_origin(
                RiskKind::ReachableLossyRightShift,
                exp,
                lhs,
                lhs_exp,
                state,
                width,
                Some(amount),
                None,
                lossless_condition(text.as_str(), mask),
                "Right shift may discard non-zero low bits",
                false,
                Some(RoundingMode::RoundDown),
            );
            add_origin(value, origin)
        } else {
            value
        }
    }

    fn raw_result(
        &self,
        exp: &Exp,
        lhs_exp: &Exp,
        lhs: &ValueState,
        op: BinOp,
        rhs_exp: &Exp,
        rhs: &ValueState,
        state: &AbstractState,
    ) -> (r: ValueState)
        ensures
            r@ == raw_result_spec(self@, *exp, *lhs_exp, lhs@, op, *rhs_exp, rhs@, state@),
    {
        reveal(raw_result_spec);
        match op {
            BinOp::Add | BinOp::Sub | BinOp::Mul | BinOp::Div | BinOp::Mod => {
                self.eval_arithmetic(exp, lhs, op, rhs_exp, rhs, state)
            },
            BinOp::BitAnd | BinOp::BitOr | BinOp::Xor => {
                self.eval_bitwise(exp, lhs_exp, lhs, op, rhs, state)
            },
            BinOp::Shl | BinOp::Shr => {
                let mut value: ValueState = match type_width(&exp.ty) {
                    Some(width) => if op == BinOp::Shl {
                        self.eval_shl(exp, lhs_exp, lhs, rhs_exp, rhs, state, width)
                    } else {
                        self.eval_shr(exp, lhs_exp, lhs, rhs_exp, rhs, state, width)
                    },
                    None => self.merged(exp, lhs, rhs),
                };
                value.formula_facts = None;
                value
            },
            BinOp::Eq
            | BinOp::Neq
            | BinOp::Lt
            | BinOp::Le
            | BinOp::Gt
            | BinOp::Ge
            | BinOp::And
            | BinOp::Or => {
                let mut value: ValueState = self.merged(exp, lhs, rhs);
                value.interval = Interval::between(U256::zero(), U256::one());
                value.bit_facts = None;
                value.formula_facts = None;
                value
            },
            BinOp::Range | BinOp::Implies | BinOp::Iff => {
                let mut value: ValueState = self.merged(exp, lhs, rhs);
                value.interval = Interval::top();
                value.bit_facts = None;
                value.formula_facts = None;
                value
            },
        }
    }

    pub fn eval_binop(
        &self,
        exp: &Exp,
        lhs_exp: &Exp,
        lhs: &ValueState,
        op: BinOp,
        rhs_exp: &Exp,
        rhs: &ValueState,
        state: &AbstractState,
        out: &mut Vec<SecurityFinding>,
    ) -> (r: ValueState)
        ensures
            r@ == binop_value_spec(self@, *exp, *lhs_exp, lhs@, op, *rhs_exp, rhs@, state@),
            views(final(out)@) == views(old(out)@) + binop_findings_spec(
                self@,
                *exp,
                *lhs_exp,
                lhs@,
                op,
                *rhs_exp,
                rhs@,
                state@,
            ),
    {
        reveal(binop_value_spec);
        reveal(binop_findings_spec);
        let mut value: ValueState = self.raw_result(
            exp,
            lhs_exp,
            lhs,
            op,
            rhs_exp,
            rhs,
            state,
        );
        let suppress_suspicious: bool = op == BinOp::Shl || op == BinOp::Shr
            || any_shift_or_precision(&value.risky_origins);
        if suppress_suspicious {
            value.risky_origins = drop_suspicious(&value.risky_origins);
        }
        if matches!(
            op,
            BinOp::Add
                | BinOp::Sub
                | BinOp::Mul
                | BinOp::Div
                | BinOp::Mod
                | BinOp::Shl
                | BinOp::Shr
        ) {
            let detail: Option<String> = Some(describe(self.function, exp));
            self.emit_arithmetic_use(
                &lhs.risky_origins,
                exp.loc,
                state,
                &detail,
                suppress_suspicious,
                out,
            );
            self.emit_arithmetic_use(
                &rhs.risky_origins,
                exp.loc,
                state,
                &detail,
                suppress_suspicious,
                out,
            );
            self.emit_rounding_mismatch_sink(
                lhs,
                exp.loc,
                SinkKind::ArithmeticUse,
                false,
                state,
                &detail,
                out,
            );
            self.emit_rounding_mismatch_sink(
                rhs,
                exp.loc,
                SinkKind::ArithmeticUse,
                false,
                state,
                &detail,
                out,
            );
        }
        assert(views(out@) =~= views(old(out)@) + binop_findings_spec(
            self@,
            *exp,
            *lhs_exp,
            lhs@,
            op,
            *rhs_exp,
            rhs@,
            state@,
        ));
        value
    }
}

} // verus!
