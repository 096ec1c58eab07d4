//! Operations: which risks they give rise to, and what their results keep.

use crate::ast::{BinOp, Exp, Loc};
use crate::domain::bit_facts::{complement, lemma_bit_complement, lemma_bit_mask};
use crate::domain::bits::{bit, lemma_bit_ones, lemma_bit_ops, lemma_bits_determine};
use crate::domain::risk::{origin_key_spec, push_new, RiskKind, RiskOriginView};
use crate::domain::state::AbstractStateView;
use crate::domain::value::ValueStateView;
use crate::domain::widths::{
    is_width, lemma_pow2_fits, low_mask_spec, type_width_spec, uint_max_spec,
};
use crate::laws::calls::lemma_only_new;
use crate::laws::denominators::{denominators_owe_what_is_reported, owes};
use crate::laws::shifts::{cut_kind, lemma_cut, may_be_cut, risks_of_shifts_say_what_is_cut};
use crate::rules::lossy_right_shift::{discarded_mask_spec, is_lossy};
use crate::transfer::binop::{
    binop_value_spec, dynamic_origin_spec, invalid_count_origin_spec, is_shift_or_precision,
    lossy_origin_spec, merged_spec, raw_result_spec, suspicious_origin_spec, truncation_origin_spec,
    without_suspicious,
};
use crate::transfer::context::Ctx;
use crate::transfer::emit::{make_origin_spec, weak_denominator_spec};
use crate::transfer::risks::{
    carries, coherent, lemma_push_new, lemma_raw_result, lemma_without_suspicious,
};
use crate::u256::{lemma_u256_of, U256};
use vstd::arithmetic::power2::pow2;
use vstd::prelude::*;

verus! {

/// Whether one of the low bits of a value is not known to be zero.
pub open spec fn may_lose_low_bits(value: ValueStateView, amount: nat) -> bool {
    amount > 0 && (value.bit_facts is None || exists|i: nat|
        i < amount && !#[trigger] bit(value.bit_facts->0.known_zero@, i))
}

/// Whether an operation gives rise to a risk of this kind: a left shift that may cut bits off, a
/// right shift that may lose some, a shift by at least the width, a shift of 256 bits by an amount
/// that is not known, a bitwise result that is not exactly known, a division whose denominator owes
/// something. Shifts go by the low eight bits of the count.
pub open spec fn gives_rise_to(
    c: Ctx,
    exp: Exp,
    lhs_exp: Exp,
    lhs: ValueStateView,
    op: BinOp,
    rhs_exp: Exp,
    rhs: ValueStateView,
    st: AbstractStateView,
    kind: RiskKind,
) -> bool {
    let typed = type_width_spec(exp.ty) is Some;
    let width = type_width_spec(exp.ty)->0;
    let known = rhs.exact_value_spec() is Some;
    let amount = rhs.exact_value_spec()->0@ % 256;
    match kind {
        RiskKind::ReachableShiftTruncation | RiskKind::FakeCheckedShift => op is Shl && typed
            && known && amount < width && may_be_cut(lhs, width, amount) && kind == cut_kind(
            lhs_exp,
            st.path_facts,
            width,
            amount,
        ),
        RiskKind::InvalidShiftCount => (op is Shl || op is Shr) && typed && known && amount
            >= width,
        RiskKind::DynamicU256Shift => (op is Shl || op is Shr) && typed && !known && width == 256,
        RiskKind::ReachableLossyRightShift => op is Shr && typed && known && amount < width
            && may_lose_low_bits(lhs, amount),
        RiskKind::SuspiciousBitwiseArithmetic => (op is BitAnd || op is BitOr || op is Xor)
            && typed && binop_value_spec(
            c,
            exp,
            lhs_exp,
            lhs,
            op,
            rhs_exp,
            rhs,
            st,
        ).exact_value_spec() is None,
        RiskKind::ReachableWeakDenominator => op is Div && owes(lhs, rhs, c.math_mode) is Some,
        RiskKind::ReachableNarrowCast | RiskKind::ReachableRoundingMismatch => false,
    }
}

/// Whether the risks hold one that makes mere bitwise arithmetic not worth a word: that of a shift,
/// or of lost low bits.
pub open spec fn hold_a_graver_risk(origins: Seq<RiskOriginView>) -> bool {
    exists|i: int|
        0 <= i < origins.len() && ((#[trigger] origins[i]).kind is ReachableShiftTruncation
            || origins[i].kind is FakeCheckedShift || origins[i].kind is InvalidShiftCount
            || origins[i].kind is ReachableLossyRightShift)
}

/// A right shift may discard a bit that is one exactly where one of the low bits is not known to be
/// zero.
pub proof fn lossy_shifts_have_open_low_bits(value: ValueStateView, width: u16, amount: u8)
    requires
        is_width(width),
        amount < width,
    ensures
        is_lossy(value, width, amount) <==> may_lose_low_bits(value, amount as nat),
{
    let s = amount as nat;
    let low = low_mask_spec(amount);
    let mask = discarded_mask_spec(width, amount);
    let zero = U256::zero_spec();
    lemma_pow2_fits(s);
    lemma_u256_of((pow2(s) - 1) as nat);
    assert forall|i: nat| i < 256 implies #[trigger] bit(mask@, i) == (i < s) by {
        lemma_bit_ops(low, uint_max_spec(width), i);
        lemma_bit_ones(s, i);
        lemma_bit_mask(width, i);
    }
    assert forall|i: nat| i < 256 implies !#[trigger] bit(zero@, i) by {
        vstd::arithmetic::power2::lemma_pow2_pos(i);
        vstd::arithmetic::div_mod::lemma_basic_div(0, pow2(i) as int);
    }
    if s == 0 {
        lemma_bits_determine(mask, zero);
    } else {
        assert(bit(mask@, 0) && !bit(zero@, 0));
    }
    if let Some(facts) = value.bit_facts {
        let open = complement(facts.known_zero).and_spec(mask);
        assert forall|i: nat| i < 256 implies #[trigger] bit(open@, i) == (i < s && !bit(
            facts.known_zero@,
            i,
        )) by {
            lemma_bit_ops(complement(facts.known_zero), mask, i);
            lemma_bit_complement(facts.known_zero, i);
            assert(bit(mask@, i) == (i < s));
        }
        if exists|i: nat| i < s && !#[trigger] bit(facts.known_zero@, i) {
            let i = choose|i: nat| i < s && !#[trigger] bit(facts.known_zero@, i);
            assert(bit(open@, i) && !bit(zero@, i));
        } else {
            lemma_bits_determine(open, zero);
        }
    }
}

/// The risk that an operation adds to those of its operands, before any are dropped.
proof fn lemma_added(
    c: Ctx,
    exp: Exp,
    lhs_exp: Exp,
    lhs: ValueStateView,
    op: BinOp,
    rhs_exp: Exp,
    rhs: ValueStateView,
    st: AbstractStateView,
    kind: RiskKind,
)
    ensures
        ({
            let raw = raw_result_spec(c, exp, lhs_exp, lhs, op, rhs_exp, rhs, st);
            let base = lhs.join_spec(rhs).risky_origins;
            &&& gives_rise_to(c, exp, lhs_exp, lhs, op, rhs_exp, rhs, st, kind) ==> exists|
                origin: RiskOriginView,
            |
                origin.kind == kind && origin.loc == exp.loc && origin.key == origin_key_spec(
                    kind,
                    exp.loc,
                ) && raw.risky_origins == #[trigger] push_new(base, origin)
            &&& (forall|other: RiskKind| !#[trigger]
                gives_rise_to(c, exp, lhs_exp, lhs, op, rhs_exp, rhs, st, other))
                ==> raw.risky_origins == base
        }),
{
    reveal(raw_result_spec);
    reveal(binop_value_spec);
    reveal(make_origin_spec);
    assert(merged_spec(c, exp, lhs, rhs).risky_origins == lhs.join_spec(rhs).risky_origins) by {
        reveal(merged_spec);
    }
    let base = lhs.join_spec(rhs).risky_origins;
    let raw = raw_result_spec(c, exp, lhs_exp, lhs, op, rhs_exp, rhs, st);
    if op is Div {
        lemma_added_by_division(c, exp, lhs_exp, lhs, rhs_exp, rhs, st, kind);
    } else if op is Shl {
        lemma_added_by_left_shift(c, exp, lhs_exp, lhs, rhs_exp, rhs, st, kind);
    } else if op is Shr {
        lemma_added_by_right_shift(c, exp, lhs_exp, lhs, rhs_exp, rhs, st, kind);
    } else if op is BitAnd || op is BitOr || op is Xor {
        let suspicious = RiskKind::SuspiciousBitwiseArithmetic;
        if let Some(width) = type_width_spec(exp.ty) {
            let origin = suspicious_origin_spec(c, exp, lhs_exp, lhs, st, width);
            if gives_rise_to(c, exp, lhs_exp, lhs, op, rhs_exp, rhs, st, suspicious) {
                assert(raw.risky_origins == push_new(base, origin));
            } else {
                assert(raw.risky_origins == base);
            }
        }
    } else {
        assert(raw.risky_origins == base);
    }
}

proof fn lemma_added_by_division(
    c: Ctx,
    exp: Exp,
    lhs_exp: Exp,
    lhs: ValueStateView,
    rhs_exp: Exp,
    rhs: ValueStateView,
    st: AbstractStateView,
    kind: RiskKind,
)
    ensures
        ({
            let raw = raw_result_spec(c, exp, lhs_exp, lhs, BinOp::Div, rhs_exp, rhs, st);
            let base = lhs.join_spec(rhs).risky_origins;
            &&& gives_rise_to(c, exp, lhs_exp, lhs, BinOp::Div, rhs_exp, rhs, st, kind) ==> exists|
                origin: RiskOriginView,
            |
                origin.kind == kind && origin.loc == exp.loc && origin.key == origin_key_spec(
                    kind,
                    exp.loc,
                ) && raw.risky_origins == #[trigger] push_new(base, origin)
            &&& (forall|other: RiskKind| !#[trigger]
                gives_rise_to(c, exp, lhs_exp, lhs, BinOp::Div, rhs_exp, rhs, st, other))
                ==> raw.risky_origins == base
        }),
{
    reveal(raw_result_spec);
    assert(merged_spec(c, exp, lhs, rhs).risky_origins == lhs.join_spec(rhs).risky_origins) by {
        reveal(merged_spec);
    }
    let base = lhs.join_spec(rhs).risky_origins;
    let raw = raw_result_spec(c, exp, lhs_exp, lhs, BinOp::Div, rhs_exp, rhs, st);
    denominators_owe_what_is_reported(c, exp, lhs, rhs, rhs_exp, st);
    let weak = RiskKind::ReachableWeakDenominator;
    if gives_rise_to(c, exp, lhs_exp, lhs, BinOp::Div, rhs_exp, rhs, st, weak) {
        let origin = weak_denominator_spec(c, exp, lhs, rhs, rhs_exp, st)->0;
        assert(raw.risky_origins == push_new(base, origin));
    }
}

proof fn lemma_added_by_left_shift(
    c: Ctx,
    exp: Exp,
    lhs_exp: Exp,
    lhs: ValueStateView,
    rhs_exp: Exp,
    rhs: ValueStateView,
    st: AbstractStateView,
    kind: RiskKind,
)
    ensures
        ({
            let raw = raw_result_spec(c, exp, lhs_exp, lhs, BinOp::Shl, rhs_exp, rhs, st);
            let base = lhs.join_spec(rhs).risky_origins;
            &&& gives_rise_to(c, exp, lhs_exp, lhs, BinOp::Shl, rhs_exp, rhs, st, kind) ==> exists|
                origin: RiskOriginView,
            |
                origin.kind == kind && origin.loc == exp.loc && origin.key == origin_key_spec(
                    kind,
                    exp.loc,
                ) && raw.risky_origins == #[trigger] push_new(base, origin)
            &&& (forall|other: RiskKind| !#[trigger]
                gives_rise_to(c, exp, lhs_exp, lhs, BinOp::Shl, rhs_exp, rhs, st, other))
                ==> raw.risky_origins == base
        }),
{
    reveal(raw_result_spec);
    assert(merged_spec(c, exp, lhs, rhs).risky_origins == lhs.join_spec(rhs).risky_origins) by {
        reveal(merged_spec);
    }
    let base = lhs.join_spec(rhs).risky_origins;
    let raw = raw_result_spec(c, exp, lhs_exp, lhs, BinOp::Shl, rhs_exp, rhs, st);
    if let Some(width) = type_width_spec(exp.ty) {
        if let Some(y) = rhs.exact_value_spec() {
            let amount = (y@ % 256) as u8;
            if amount >= width {
                reveal(make_origin_spec);
                let origin = invalid_count_origin_spec(
                    c,
                    exp,
                    rhs_exp,
                    rhs,
                    st,
                    width,
                    amount,
                );
                assert(raw.risky_origins == push_new(base, origin));
                let invalid = RiskKind::InvalidShiftCount;
                assert(gives_rise_to(
                    c,
                    exp,
                    lhs_exp,
                    lhs,
                    BinOp::Shl,
                    rhs_exp,
                    rhs,
                    st,
                    invalid,
                ));
            } else {
                if let Some(upper) = lhs.interval.upper {
                    lemma_cut(width, amount, upper);
                }
                let origin = truncation_origin_spec(c, exp, lhs_exp, lhs, st, width, amount);
                risks_of_shifts_say_what_is_cut(c, exp, lhs_exp, lhs, st, width, amount, y);
                let cut = cut_kind(lhs_exp, st.path_facts, width, amount as nat);
                if may_be_cut(lhs, width, amount as nat) {
                    assert(gives_rise_to(
                        c,
                        exp,
                        lhs_exp,
                        lhs,
                        BinOp::Shl,
                        rhs_exp,
                        rhs,
                        st,
                        cut,
                    ));
                    assert(raw.risky_origins == push_new(base, origin));
                } else {
                    assert(raw.risky_origins == base);
                }
            }
        } else if width == 256 {
            reveal(make_origin_spec);
            let origin = dynamic_origin_spec(c, exp, rhs_exp, rhs, st);
            assert(raw.risky_origins == push_new(base, origin));
            let dynamic = RiskKind::DynamicU256Shift;
            assert(gives_rise_to(
                c,
                exp,
                lhs_exp,
                lhs,
                BinOp::Shl,
                rhs_exp,
                rhs,
                st,
                dynamic,
            ));
        }
    }
}

proof fn lemma_added_by_right_shift(
    c: Ctx,
    exp: Exp,
    lhs_exp: Exp,
    lhs: ValueStateView,
    rhs_exp: Exp,
    rhs: ValueStateView,
    st: AbstractStateView,
    kind: RiskKind,
)
    ensures
        ({
            let raw = raw_result_spec(c, exp, lhs_exp, lhs, BinOp::Shr, rhs_exp, rhs, st);
            let base = lhs.join_spec(rhs).risky_origins;
            &&& gives_rise_to(c, exp, lhs_exp, lhs, BinOp::Shr, rhs_exp, rhs, st, kind) ==> exists|
                origin: RiskOriginView,
            |
                origin.kind == kind && origin.loc == exp.loc && origin.key == origin_key_spec(
                    kind,
                    exp.loc,
                ) && raw.risky_origins == #[trigger] push_new(base, origin)
            &&& (forall|other: RiskKind| !#[trigger]
                gives_rise_to(c, exp, lhs_exp, lhs, BinOp::Shr, rhs_exp, rhs, st, other))
                ==> raw.risky_origins == base
        }),
{
    reveal(raw_result_spec);
    reveal(make_origin_spec);
    assert(merged_spec(c, exp, lhs, rhs).risky_origins == lhs.join_spec(rhs).risky_origins) by {
        reveal(merged_spec);
    }
    let base = lhs.join_spec(rhs).risky_origins;
    let raw = raw_result_spec(c, exp, lhs_exp, lhs, BinOp::Shr, rhs_exp, rhs, st);
    if let Some(width) = type_width_spec(exp.ty) {
        if let Some(y) = rhs.exact_value_spec() {
            let amount = (y@ % 256) as u8;
            if amount >= width {
                let origin = invalid_count_origin_spec(
                    c,
                    exp,
                    rhs_exp,
                    rhs,
                    st,
                    width,
                    amount,
                );
                assert(raw.risky_origins == push_new(base, origin));
                let invalid = RiskKind::InvalidShiftCount;
                assert(gives_rise_to(
                    c,
                    exp,
                    lhs_exp,
                    lhs,
                    BinOp::Shr,
                    rhs_exp,
                    rhs,
                    st,
                    invalid,
                ));
            } else {
                lossy_shifts_have_open_low_bits(lhs, width, amount);
                let origin = lossy_origin_spec(c, exp, lhs_exp, lhs, st, width, amount);
                let lossy = RiskKind::ReachableLossyRightShift;
                if is_lossy(lhs, width, amount) {
                    assert(gives_rise_to(
                        c,
                        exp,
                        lhs_exp,
                        lhs,
                        BinOp::Shr,
                        rhs_exp,
                        rhs,
                        st,
                        lossy,
                    ));
                    assert(raw.risky_origins == push_new(base, origin));
                } else {
                    assert(raw.risky_origins == base);
                }
            }
        } else if width == 256 {
            let origin = dynamic_origin_spec(c, exp, rhs_exp, rhs, st);
            assert(raw.risky_origins == push_new(base, origin));
            let dynamic = RiskKind::DynamicU256Shift;
            assert(gives_rise_to(
                c,
                exp,
                lhs_exp,
                lhs,
                BinOp::Shr,
                rhs_exp,
                rhs,
                st,
                dynamic,
            ));
        }
    }
}

/// The result of an operation carries each risk that the operation gives rise to; that of a bitwise
/// result unless an operand carries a graver one.
pub proof fn operations_carry_their_risks(
    c: Ctx,
    exp: Exp,
    lhs_exp: Exp,
    lhs: ValueStateView,
    op: BinOp,
    rhs_exp: Exp,
    rhs: ValueStateView,
    st: AbstractStateView,
    kind: RiskKind,
)
    requires
        coherent(lhs.risky_origins),
        coherent(rhs.risky_origins),
        gives_rise_to(c, exp, lhs_exp, lhs, op, rhs_exp, rhs, st, kind),
        kind is SuspiciousBitwiseArithmetic ==> !hold_a_graver_risk(lhs.risky_origins)
            && !hold_a_graver_risk(rhs.risky_origins),
    ensures
        carries(
            binop_value_spec(c, exp, lhs_exp, lhs, op, rhs_exp, rhs, st).risky_origins,
            origin_key_spec(kind, exp.loc),
        ),
{
    reveal(binop_value_spec);
    lemma_added(c, exp, lhs_exp, lhs, op, rhs_exp, rhs, st, kind);
    lemma_raw_result(c, exp, lhs_exp, lhs, op, rhs_exp, rhs, st);
    let raw = raw_result_spec(c, exp, lhs_exp, lhs, op, rhs_exp, rhs, st);
    let base = lhs.join_spec(rhs).risky_origins;
    let origin = choose|origin: RiskOriginView|
        origin.kind == kind && origin.loc == exp.loc && origin.key == origin_key_spec(
            kind,
            exp.loc,
        ) && raw.risky_origins == #[trigger] push_new(base, origin);
    lemma_push_new(base, origin);
    lemma_without_suspicious(raw.risky_origins, kind, exp.loc);
    if kind is SuspiciousBitwiseArithmetic {
        assert forall|i: int| 0 <= i < raw.risky_origins.len() implies {
            let other = (#[trigger] raw.risky_origins[i]).kind;
            other !is ReachableShiftTruncation && other !is FakeCheckedShift
                && other !is InvalidShiftCount && other !is ReachableLossyRightShift
        } by {
            if i < base.len() {
                assert(raw.risky_origins[i] == base[i]);
                lemma_of_an_operand(lhs, rhs, i);
            } else {
                assert(raw.risky_origins[i] == origin);
            }
        }
    }
}

/// A risk that two values have together is one of either.
proof fn lemma_of_an_operand(lhs: ValueStateView, rhs: ValueStateView, i: int)
    requires
        0 <= i < lhs.join_spec(rhs).risky_origins.len(),
    ensures
        lhs.risky_origins.contains(lhs.join_spec(rhs).risky_origins[i])
            || rhs.risky_origins.contains(lhs.join_spec(rhs).risky_origins[i]),
{
    lemma_only_new(lhs.risky_origins, rhs.risky_origins, rhs.risky_origins.len(), i);
}

/// The result of an operation carries no other risks: each is one of an operand, or one that the
/// operation gives rise to, at its place.
pub proof fn operations_carry_no_other_risks(
    c: Ctx,
    exp: Exp,
    lhs_exp: Exp,
    lhs: ValueStateView,
    op: BinOp,
    rhs_exp: Exp,
    rhs: ValueStateView,
    st: AbstractStateView,
    k: int,
)
    requires
        0 <= k < binop_value_spec(
            c,
            exp,
            lhs_exp,
            lhs,
            op,
            rhs_exp,
            rhs,
            st,
        ).risky_origins.len(),
    ensures
        ({
            let origin = binop_value_spec(
                c,
                exp,
                lhs_exp,
                lhs,
                op,
                rhs_exp,
                rhs,
                st,
            ).risky_origins[k];
            ||| lhs.risky_origins.contains(origin)
            ||| rhs.risky_origins.contains(origin)
            ||| gives_rise_to(c, exp, lhs_exp, lhs, op, rhs_exp, rhs, st, origin.kind)
                && origin.loc == exp.loc && origin.key == origin_key_spec(origin.kind, exp.loc)
        }),
{
    let value = binop_value_spec(c, exp, lhs_exp, lhs, op, rhs_exp, rhs, st);
    let raw = raw_result_spec(c, exp, lhs_exp, lhs, op, rhs_exp, rhs, st);
    let origin = value.risky_origins[k];
    assert(raw.risky_origins.contains(origin)) by {
        reveal(binop_value_spec);
        if value.risky_origins != raw.risky_origins {
            raw.risky_origins.lemma_filter_contains_rev(
                |o: RiskOriginView| o.kind !is SuspiciousBitwiseArithmetic,
                origin,
            );
        }
    }
    let base = lhs.join_spec(rhs).risky_origins;
    let m = choose|m: int| 0 <= m < raw.risky_origins.len() && raw.risky_origins[m] == origin;
    if exists|kind: RiskKind| #[trigger]
        gives_rise_to(c, exp, lhs_exp, lhs, op, rhs_exp, rhs, st, kind) {
        let kind = choose|kind: RiskKind| #[trigger]
            gives_rise_to(c, exp, lhs_exp, lhs, op, rhs_exp, rhs, st, kind);
        lemma_added(c, exp, lhs_exp, lhs, op, rhs_exp, rhs, st, kind);
        let added = choose|added: RiskOriginView|
            added.kind == kind && added.loc == exp.loc && added.key == origin_key_spec(
                kind,
                exp.loc,
            ) && raw.risky_origins == #[trigger] push_new(base, added);
        if m < base.len() {
            assert(base[m] == origin);
            lemma_of_an_operand(lhs, rhs, m);
        }
    } else {
        lemma_added(
            c,
            exp,
            lhs_exp,
            lhs,
            op,
            rhs_exp,
            rhs,
            st,
            RiskKind::ReachableNarrowCast,
        );
        lemma_of_an_operand(lhs, rhs, m);
    }
}

/// Risks of bitwise arithmetic are dropped from the result of a shift, and from one that carries a
/// graver risk; any other result keeps those of its operands.
pub proof fn bitwise_risks_give_way_to_graver_ones(
    c: Ctx,
    exp: Exp,
    lhs_exp: Exp,
    lhs: ValueStateView,
    op: BinOp,
    rhs_exp: Exp,
    rhs: ValueStateView,
    st: AbstractStateView,
    k: int,
    at: Loc,
)
    requires
        coherent(lhs.risky_origins),
        coherent(rhs.risky_origins),
    ensures
        ({
            let origins = binop_value_spec(
                c,
                exp,
                lhs_exp,
                lhs,
                op,
                rhs_exp,
                rhs,
                st,
            ).risky_origins;
            let key = origin_key_spec(RiskKind::SuspiciousBitwiseArithmetic, at);
            &&& (op is Shl || op is Shr || hold_a_graver_risk(origins)) && 0 <= k < origins.len()
                ==> origins[k].kind !is SuspiciousBitwiseArithmetic
            &&& op !is Shl && op !is Shr && !hold_a_graver_risk(origins) && (carries(
                lhs.risky_origins,
                key,
            ) || carries(rhs.risky_origins, key)) ==> carries(origins, key)
        }),
{
    reveal(binop_value_spec);
    lemma_raw_result(c, exp, lhs_exp, lhs, op, rhs_exp, rhs, st);
    let raw = raw_result_spec(c, exp, lhs_exp, lhs, op, rhs_exp, rhs, st);
    let value = binop_value_spec(c, exp, lhs_exp, lhs, op, rhs_exp, rhs, st);
    let keep = |o: RiskOriginView| o.kind !is SuspiciousBitwiseArithmetic;
    let origins = value.risky_origins;
    if value.risky_origins == without_suspicious(raw.risky_origins) && 0 <= k < origins.len() {
        raw.risky_origins.lemma_filter_contains_rev(keep, origins[k]);
    }
    if value.risky_origins != raw.risky_origins && op !is Shl && op !is Shr {
        let i = choose|i: int|
            0 <= i < raw.risky_origins.len() && is_shift_or_precision(
                (#[trigger] raw.risky_origins[i]).kind,
            );
        raw.risky_origins.lemma_filter_contains(keep, i);
        assert(without_suspicious(raw.risky_origins).contains(raw.risky_origins[i]));
        let m = choose|m: int| 0 <= m < origins.len() && origins[m] == raw.risky_origins[i];
        assert(hold_a_graver_risk(origins));
    }
    if value.risky_origins == raw.risky_origins && hold_a_graver_risk(origins) {
        let i = choose|i: int|
            0 <= i < origins.len() && ((#[trigger] origins[i]).kind is ReachableShiftTruncation
                || origins[i].kind is FakeCheckedShift || origins[i].kind is InvalidShiftCount
                || origins[i].kind is ReachableLossyRightShift);
        assert(is_shift_or_precision(raw.risky_origins[i].kind));
    }
}

} // verus!
