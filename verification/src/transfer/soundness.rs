//! What abstract values stand for: the numbers that programs compute are among them.

use crate::ast::{BinOp, BuiltinTypeName, Exp, Type, UnannotatedExp, Value};
use crate::domain::bit_facts::{
    bitwise_facts_admit_results, complement, exact_admits_one_value, lemma_bit_complement,
    lemma_bit_mask, lemma_fits_by_bits, mask_keeps_what_fits, shifted_facts_admit_results,
    unknown_admits_what_fits,
};
use crate::domain::bits::{bit, lemma_bit_ops};
use crate::domain::interval::{intersect_is_exact, Interval};
use crate::domain::state::AbstractStateView;
use crate::domain::value::{exact_value_is_unique, refining_is_exact, ValueStateView};
use crate::domain::widths::{
    builtin_width_spec, integer_value_spec, is_width, lemma_pow2_widths, type_width_spec,
    uint_max_is_all_ones, uint_max_spec,
};
use crate::rules::shift_truncation::{no_truncation_threshold_spec, threshold_is_exact};
use crate::transfer::binop::{
    arithmetic_spec, binop_value_spec, bits_or_unknown, bitwise_bits_spec, bitwise_spec,
    checked_interval_spec, div_interval_spec, full_interval_spec, merged_spec, numeric_bits_spec,
    raw_result_spec, shift_amount_spec, shifted_interval_spec, shifted_spec, shl_spec, shr_spec,
};
use crate::transfer::context::Ctx;
use crate::transfer::eval::{
    cast_value_spec, constant_spec, eval_spec, first_or_top_spec, literal_width, narrowed_spec,
};
use crate::transfer::semantics::{fits, number_of, result_of};
use crate::u256::{full, lemma_u256_of, lemma_u256_view, u256_of, U256};
use vstd::arithmetic::power2::pow2;
use vstd::prelude::*;

verus! {

/// Whether a state follows the numbers in the variables: the path to it is open, and the abstract
/// value of each variable admits its number.
pub open spec fn tracks(st: AbstractStateView, values: Map<usize, U256>) -> bool {
    !st.unreachable && forall|k: usize| #[trigger]
        values.contains_key(k) ==> st.locals.contains_key(k) && st.locals[k].valid()
            && st.locals[k].admits(values[k])
}

/// The width of an integer type is one of six.
proof fn lemma_type_width(ty: Type)
    ensures
        type_width_spec(ty) is Some ==> is_width(type_width_spec(ty)->0),
{
}

proof fn lemma_full_interval(width: Option<u16>, z: U256)
    requires
        width is Some ==> fits(width->0, z),
    ensures
        full_interval_spec(width).contains(z@),
{
}

/// The range of a sum, a difference or a product has two ends, and holds the result of every two
/// numbers of the ranges of its operands that the program does not abort on.
pub proof fn arithmetic_ranges_hold_results(
    l: Interval,
    r: Interval,
    width: Option<u16>,
    op: BinOp,
    x: U256,
    y: U256,
)
    requires
        op is Add || op is Sub || op is Mul,
        l.contains(x@),
        r.contains(y@),
        result_of(op, width, x, y) is Some,
    ensures
        checked_interval_spec(l, r, width, op).contains(result_of(op, width, x, y)->0@),
        checked_interval_spec(l, r, width, op).lower is Some,
        checked_interval_spec(l, r, width, op).upper is Some,
{
    let z = result_of(op, width, x, y)->0;
    lemma_u256_view(x);
    lemma_u256_view(y);
    match (l.lower, l.upper, r.lower, r.upper) {
        (Some(ll), Some(lu), Some(rl), Some(ru)) => {
            lemma_u256_view(ll);
            lemma_u256_view(lu);
            lemma_u256_view(rl);
            lemma_u256_view(ru);
            assert(ll@ * rl@ <= x@ * y@ <= lu@ * ru@) by (nonlinear_arith)
                requires
                    0 <= ll@ <= x@ <= lu@,
                    0 <= rl@ <= y@ <= ru@,
            ;
            match op {
                BinOp::Add => {
                    lemma_u256_of(x@ + y@);
                    lemma_u256_of(ll@ + rl@);
                    if lu@ + ru@ < full() {
                        lemma_u256_of(lu@ + ru@);
                    }
                },
                BinOp::Sub => {
                    lemma_u256_of((x@ - y@) as nat);
                    lemma_u256_of((lu@ - rl@) as nat);
                    if ll@ >= ru@ {
                        lemma_u256_of((ll@ - ru@) as nat);
                    }
                },
                _ => {
                    lemma_u256_of(x@ * y@);
                    lemma_u256_of(ll@ * rl@);
                    if lu@ * ru@ < full() {
                        lemma_u256_of(lu@ * ru@);
                    }
                },
            }
        },
        _ => {},
    }
}

proof fn lemma_div_interval(l: Interval, r: Interval, width: Option<u16>, x: U256, y: U256)
    requires
        l.contains(x@),
        r.contains(y@),
        result_of(BinOp::Div, width, x, y) is Some,
    ensures
        div_interval_spec(l, r, width).contains(result_of(BinOp::Div, width, x, y)->0@),
{
    lemma_u256_view(x);
    lemma_quotient_fits(x, y);
    match (l.lower, l.upper, r.lower, r.upper) {
        (Some(lo), Some(hi), Some(rlo), Some(rhi)) => {
            if r.positive_spec() {
                lemma_u256_view(lo);
                lemma_u256_view(hi);
                lemma_quotient_fits(lo, rhi);
                lemma_quotient_fits(hi, rlo);
                vstd::arithmetic::div_mod::lemma_div_is_ordered(lo@ as int, x@ as int, rhi@ as int);
                vstd::arithmetic::div_mod::lemma_div_is_ordered_by_denominator(
                    x@ as int,
                    y@ as int,
                    rhi@ as int,
                );
                vstd::arithmetic::div_mod::lemma_div_is_ordered(x@ as int, hi@ as int, rlo@ as int);
                vstd::arithmetic::div_mod::lemma_div_is_ordered_by_denominator(
                    x@ as int,
                    rlo@ as int,
                    y@ as int,
                );
            }
        },
        _ => {},
    }
}

proof fn lemma_quotient_fits(x: U256, y: U256)
    requires
        y@ != 0,
    ensures
        u256_of(x@ / y@)@ == x@ / y@,
{
    lemma_u256_view(x);
    vstd::arithmetic::div_mod::lemma_div_is_ordered_by_denominator(x@ as int, 1, y@ as int);
    lemma_u256_of(x@ / y@);
}

proof fn lemma_numeric_bits(
    lhs: ValueStateView,
    rhs: ValueStateView,
    width: u16,
    op: BinOp,
    x: U256,
    y: U256,
)
    requires
        is_width(width),
        lhs.valid(),
        rhs.valid(),
        lhs.admits(x),
        rhs.admits(y),
        op is Add || op is Sub || op is Mul || op is Div || op is Mod,
        result_of(op, Some(width), x, y) is Some,
        numeric_bits_spec(lhs, rhs, Some(width), op) is Some,
    ensures
        numeric_bits_spec(lhs, rhs, Some(width), op)->0.admits(
            result_of(op, Some(width), x, y)->0,
        ),
        numeric_bits_spec(lhs, rhs, Some(width), op)->0.width == width,
{
    exact_value_is_unique(lhs, x);
    exact_value_is_unique(rhs, y);
    let z = result_of(op, Some(width), x, y)->0;
    mask_keeps_what_fits(z, width);
    exact_admits_one_value(width, z, z);
}

/// The result of a sum, difference, product, quotient or remainder is among the numbers that its
/// abstract value stands for.
proof fn lemma_arithmetic(
    c: Ctx,
    exp: Exp,
    lhs: ValueStateView,
    op: BinOp,
    rhs_exp: Exp,
    rhs: ValueStateView,
    st: AbstractStateView,
    x: U256,
    y: U256,
)
    requires
        lhs.valid(),
        rhs.valid(),
        lhs.admits(x),
        rhs.admits(y),
        op is Add || op is Sub || op is Mul || op is Div || op is Mod,
        result_of(op, type_width_spec(exp.ty), x, y) is Some,
    ensures
        arithmetic_spec(c, exp, lhs, op, rhs_exp, rhs, st).admits(
            result_of(op, type_width_spec(exp.ty), x, y)->0,
        ),
        arithmetic_spec(c, exp, lhs, op, rhs_exp, rhs, st).valid(),
{
    lemma_type_width(exp.ty);
    let width = type_width_spec(exp.ty);
    let z = result_of(op, width, x, y)->0;
    lemma_full_interval(width, z);
    if op is Div {
        lemma_div_interval(lhs.interval, rhs.interval, width, x, y);
    } else if op !is Mod {
        arithmetic_ranges_hold_results(lhs.interval, rhs.interval, width, op, x, y);
    }
    if numeric_bits_spec(lhs, rhs, width, op) is Some {
        lemma_numeric_bits(lhs, rhs, width->0, op, x, y);
    }
}

/// The result of a bitwise operation is among the numbers that its abstract value stands for.
proof fn lemma_bitwise(
    c: Ctx,
    exp: Exp,
    lhs_exp: Exp,
    lhs: ValueStateView,
    op: BinOp,
    rhs: ValueStateView,
    st: AbstractStateView,
    x: U256,
    y: U256,
)
    requires
        lhs.valid(),
        rhs.valid(),
        lhs.admits(x),
        rhs.admits(y),
        op is BitAnd || op is BitOr || op is Xor,
        result_of(op, type_width_spec(exp.ty), x, y) is Some,
    ensures
        bitwise_spec(c, exp, lhs_exp, lhs, op, rhs, st).admits(
            result_of(op, type_width_spec(exp.ty), x, y)->0,
        ),
        bitwise_spec(c, exp, lhs_exp, lhs, op, rhs, st).valid(),
{
    lemma_type_width(exp.ty);
    let width = type_width_spec(exp.ty)->0;
    let z = result_of(op, Some(width), x, y)->0;
    let l = bits_or_unknown(lhs, width);
    let r = bits_or_unknown(rhs, width);
    unknown_admits_what_fits(width, x);
    unknown_admits_what_fits(width, y);
    bitwise_facts_admit_results(l, r, width, x, y);
    mask_keeps_what_fits(z, width);
    let known = ValueStateView {
        bit_facts: Some(bitwise_bits_spec(width, lhs, rhs, op)),
        interval: Interval::range(U256::zero_spec(), uint_max_spec(width)),
        ..merged_spec(c, exp, lhs, rhs)
    };
    assert(known.admits(z));
    refining_is_exact(known, z);
}

/// A left shift that loses nothing at the top multiplies.
pub proof fn lemma_shl_exact(width: u16, amount: u8, x: U256)
    requires
        is_width(width),
        amount < width,
        x@ * pow2(amount as nat) <= uint_max_spec(width)@,
    ensures
        x.shl_spec(amount as nat)@ == x@ * pow2(amount as nat),
        u256_of((x@ * pow2(amount as nat)) % pow2(width as nat)) == x.shl_spec(amount as nat),
{
    let n = x@ * pow2(amount as nat);
    uint_max_is_all_ones(width);
    lemma_u256_view(uint_max_spec(width));
    vstd::arithmetic::div_mod::lemma_small_mod(n, full());
    vstd::arithmetic::div_mod::lemma_small_mod(n, pow2(width as nat));
    lemma_u256_of(n);
}

proof fn lemma_shr_fits(x: U256, s: nat)
    ensures
        x.shr_spec(s)@ == x@ / pow2(s),
        x.shr_spec(s)@ <= x@,
{
    vstd::arithmetic::power2::lemma_pow2_pos(s);
    lemma_quotient_fits(x, u256_of(1));
    lemma_u256_view(x);
    vstd::arithmetic::div_mod::lemma_div_is_ordered_by_denominator(x@ as int, 1, pow2(s) as int);
    lemma_u256_of(x@ / pow2(s));
}

proof fn lemma_shifted(
    merged: ValueStateView,
    lhs: ValueStateView,
    left: bool,
    amount: u8,
    width: u16,
    x: U256,
    z: U256,
)
    requires
        is_width(width),
        amount < width,
        lhs.valid(),
        lhs.admits(x),
        fits(width, x),
        left ==> lhs.interval.at_most_spec(no_truncation_threshold_spec(width, amount)),
        z == if left {
            x.shl_spec(amount as nat)
        } else {
            x.shr_spec(amount as nat)
        },
    ensures
        shifted_spec(merged, lhs, left, amount, width).admits(z),
        shifted_spec(merged, lhs, left, amount, width).valid(),
{
    let s = amount as nat;
    vstd::arithmetic::power2::lemma_pow2_pos(s);
    if left {
        threshold_is_exact(width, amount, x);
        lemma_shl_exact(width, amount, x);
        if let (Some(lo), Some(hi)) = (lhs.interval.lower, lhs.interval.upper) {
            threshold_is_exact(width, amount, hi);
            assert(lo@ * pow2(s) <= x@ * pow2(s) <= hi@ * pow2(s)) by (nonlinear_arith)
                requires
                    lo@ <= x@ <= hi@,
            ;
            lemma_shl_exact(width, amount, hi);
            lemma_shl_exact(width, amount, lo);
        }
    } else {
        lemma_shr_fits(x, s);
        if let (Some(lo), Some(hi)) = (lhs.interval.lower, lhs.interval.upper) {
            lemma_shr_fits(lo, s);
            lemma_shr_fits(hi, s);
            vstd::arithmetic::div_mod::lemma_div_is_ordered(lo@ as int, x@ as int, pow2(s) as int);
            vstd::arithmetic::div_mod::lemma_div_is_ordered(x@ as int, hi@ as int, pow2(s) as int);
        }
    }
    assert(shifted_interval_spec(lhs.interval, left, amount, width).contains(z@));
    let plain = ValueStateView {
        interval: shifted_interval_spec(lhs.interval, left, amount, width),
        bit_facts: match lhs.bit_facts {
            Some(facts) => if left {
                Some(facts.shift_left_spec(amount, width))
            } else {
                Some(facts.shift_right_spec(amount, width))
            },
            None => None,
        },
        ..merged
    };
    if let Some(facts) = lhs.bit_facts {
        shifted_facts_admit_results(facts, amount, width, x);
        mask_keeps_what_fits(z, width);
    }
    assert(plain.admits(z));
    refining_is_exact(plain, z);
}

proof fn lemma_shl_result_fits(width: u16, x: U256, y: U256)
    requires
        is_width(width),
        y@ < width,
        fits(width, x),
    ensures
        fits(width, result_of(BinOp::Shl, Some(width), x, y)->0),
{
    uint_max_is_all_ones(width);
    let n = (x@ * pow2(y@)) % pow2(width as nat);
    vstd::arithmetic::power2::lemma_pow2_pos(width as nat);
    vstd::arithmetic::div_mod::lemma_mod_bound((x@ * pow2(y@)) as int, pow2(width as nat) as int);
    lemma_u256_view(uint_max_spec(width));
    lemma_u256_of(n);
}

/// The result of a shift is among the numbers that its abstract value stands for.
proof fn lemma_shift(
    c: Ctx,
    exp: Exp,
    lhs_exp: Exp,
    lhs: ValueStateView,
    rhs_exp: Exp,
    rhs: ValueStateView,
    st: AbstractStateView,
    width: u16,
    left: bool,
    x: U256,
    y: U256,
)
    requires
        is_width(width),
        lhs.valid(),
        rhs.valid(),
        lhs.admits(x),
        rhs.admits(y),
        fits(width, x),
        y@ < width,
    ensures
        ({
            let op = if left {
                BinOp::Shl
            } else {
                BinOp::Shr
            };
            let z = result_of(op, Some(width), x, y)->0;
            let value = if left {
                shl_spec(c, exp, lhs_exp, lhs, rhs_exp, rhs, st, width)
            } else {
                shr_spec(c, exp, lhs_exp, lhs, rhs_exp, rhs, st, width)
            };
            value.admits(z) && value.valid()
        }),
{
    let merged = merged_spec(c, exp, lhs, rhs);
    lemma_shl_result_fits(width, x, y);
    lemma_shr_fits(x, y@);
    let z = result_of(
        if left {
            BinOp::Shl
        } else {
            BinOp::Shr
        },
        Some(width),
        x,
        y,
    )->0;
    unknown_admits_what_fits(width, z);
    if shift_amount_spec(rhs) is Some {
        exact_value_is_unique(rhs, y);
        let amount = shift_amount_spec(rhs)->0;
        assert(amount as nat == y@);
        if !left {
            lemma_shifted(merged, lhs, false, amount, width, x, z);
        } else if lhs.interval.at_most_spec(no_truncation_threshold_spec(width, amount)) {
            threshold_is_exact(width, amount, x);
            lemma_shl_exact(width, amount, x);
            lemma_shifted(merged, lhs, true, amount, width, x, z);
        }
    }
}

/// The result of an operation on admitted numbers is admitted by the abstract result.
pub proof fn operations_admit_their_results(
    c: Ctx,
    exp: Exp,
    lhs_exp: Exp,
    lhs: ValueStateView,
    op: BinOp,
    rhs_exp: Exp,
    rhs: ValueStateView,
    st: AbstractStateView,
    x: U256,
    y: U256,
)
    requires
        lhs.valid(),
        rhs.valid(),
        lhs.admits(x),
        rhs.admits(y),
        result_of(op, type_width_spec(exp.ty), x, y) is Some,
    ensures
        binop_value_spec(c, exp, lhs_exp, lhs, op, rhs_exp, rhs, st).admits(
            result_of(op, type_width_spec(exp.ty), x, y)->0,
        ),
        binop_value_spec(c, exp, lhs_exp, lhs, op, rhs_exp, rhs, st).valid(),
{
    reveal(binop_value_spec);
    reveal(raw_result_spec);
    lemma_type_width(exp.ty);
    match op {
        BinOp::Add | BinOp::Sub | BinOp::Mul | BinOp::Div | BinOp::Mod => {
            lemma_arithmetic(c, exp, lhs, op, rhs_exp, rhs, st, x, y);
        },
        BinOp::BitAnd | BinOp::BitOr | BinOp::Xor => {
            lemma_bitwise(c, exp, lhs_exp, lhs, op, rhs, st, x, y);
        },
        BinOp::Shl | BinOp::Shr => {
            let width = type_width_spec(exp.ty)->0;
            lemma_shift(c, exp, lhs_exp, lhs, rhs_exp, rhs, st, width, op is Shl, x, y);
        },
        _ => {},
    }
}

proof fn lemma_narrowed(
    c: Ctx,
    exp: Exp,
    inner: Exp,
    value: ValueStateView,
    st: AbstractStateView,
    width: u16,
    x: U256,
)
    requires
        is_width(width),
        value.valid(),
        value.admits(x),
        fits(width, x),
    ensures
        narrowed_spec(c, exp, inner, value, st, width).admits(x),
        narrowed_spec(c, exp, inner, value, st, width).valid(),
{
    let max = uint_max_spec(width);
    let facts = bits_or_unknown(value, width);
    let narrow = facts.narrowed(width);
    unknown_admits_what_fits(width, x);
    intersect_is_exact(value.interval, Some(U256::zero_spec()), Some(max));
    lemma_fits_by_bits(x, width);
    assert forall|i: nat| #![trigger bit(x@, i)] i < 256 implies (bit(narrow.known_zero@, i)
        ==> !bit(x@, i)) && (bit(narrow.known_one@, i) ==> bit(x@, i)) by {
        lemma_bit_ops(facts.known_zero, complement(max), i);
        lemma_bit_ops(facts.known_one, max, i);
        lemma_bit_complement(max, i);
        lemma_bit_mask(width, i);
    }
    let plain = ValueStateView {
        interval: value.interval.intersect_spec(Some(U256::zero_spec()), Some(max)),
        bit_facts: Some(narrow),
        ..value
    };
    assert(plain.admits(x));
    refining_is_exact(plain, x);
}

/// A number that survives a cast is admitted by the abstract value of the cast.
pub proof fn casts_admit_their_results(
    c: Ctx,
    exp: Exp,
    inner: Exp,
    value: ValueStateView,
    builtin: BuiltinTypeName,
    st: AbstractStateView,
    x: U256,
)
    requires
        value.valid(),
        value.admits(x),
        builtin_width_spec(builtin) is Some ==> fits(builtin_width_spec(builtin)->0, x),
    ensures
        cast_value_spec(c, exp, inner, value, builtin, st).admits(x),
        cast_value_spec(c, exp, inner, value, builtin, st).valid(),
{
    reveal(cast_value_spec);
    if let Some(width) = builtin_width_spec(builtin) {
        lemma_narrowed(c, exp, inner, value, st, width, x);
    }
}

/// Whether the operator gives an integer from integers.
pub open spec fn is_numeric(op: BinOp) -> bool {
    op is Add || op is Sub || op is Mul || op is Div || op is Mod || op is BitOr || op is BitAnd
        || op is Xor || op is Shl || op is Shr
}

proof fn lemma_literal(value: Value)
    requires
        integer_value_spec(value) is Some,
    ensures
        constant_spec(value).admits(integer_value_spec(value)->0),
        constant_spec(value).valid(),
{
    let x = integer_value_spec(value)->0;
    let width = literal_width(value);
    assert(is_width(width));
    lemma_u256_view(x);
    assert(fits(width, x)) by {
        if width == 256 {
            lemma_u256_view(U256::max_value_spec());
            lemma_pow2_widths();
            uint_max_is_all_ones(256);
        }
    }
    mask_keeps_what_fits(x, width);
    exact_admits_one_value(width, x, x);
}

/// The number that an expression comes out as is admitted by its abstract value.
pub proof fn expressions_admit_their_numbers(
    c: Ctx,
    e: Exp,
    st: AbstractStateView,
    values: Map<usize, U256>,
)
    requires
        tracks(st, values),
        number_of(e, values) is Some,
    ensures
        eval_spec(c, e, st).0.len() == 1,
        eval_spec(c, e, st).0[0].admits(number_of(e, values)->0),
        eval_spec(c, e, st).0[0].valid(),
    decreases e,
{
    match e.value {
        UnannotatedExp::Value(Value::Bool(_)) => {},
        UnannotatedExp::Value(value) => {
            lemma_literal(value);
        },
        UnannotatedExp::Move(var) | UnannotatedExp::Copy(var) => {
            assert(values.contains_key(var.index));
        },
        UnannotatedExp::Cast(inner, builtin) => {
            expressions_admit_their_numbers(c, *inner, st, values);
            let value = first_or_top_spec(eval_spec(c, *inner, st).0);
            casts_admit_their_results(
                c,
                e,
                *inner,
                value,
                builtin,
                st,
                number_of(*inner, values)->0,
            );
        },
        UnannotatedExp::BinopExp(lhs, op, rhs) => {
            let left = first_or_top_spec(eval_spec(c, *lhs, st).0);
            let right = first_or_top_spec(eval_spec(c, *rhs, st).0);
            if is_numeric(op) {
                expressions_admit_their_numbers(c, *lhs, st, values);
                expressions_admit_their_numbers(c, *rhs, st, values);
                operations_admit_their_results(
                    c,
                    e,
                    *lhs,
                    left,
                    op,
                    *rhs,
                    right,
                    st,
                    number_of(*lhs, values)->0,
                    number_of(*rhs, values)->0,
                );
            } else {
                reveal(binop_value_spec);
                reveal(raw_result_spec);
            }
        },
        _ => {},
    }
}

} // verus!
