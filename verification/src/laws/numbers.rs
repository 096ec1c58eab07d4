//! Numbers: what operations on known numbers give, and how tight ranges and known bits are.

use crate::ast::{BaseType, BinOp, BuiltinTypeName, Exp, SingleType, Type, Value};
use crate::domain::bit_facts::{complement, lemma_bit_complement, lemma_bit_mask, BitFacts};
use crate::domain::bits::{
    bit, lemma_bit_ones, lemma_bit_ops, lemma_bit_shl, lemma_bit_shr, lemma_bits_determine,
};
use crate::domain::interval::Interval;
use crate::domain::state::AbstractStateView;
use crate::domain::value::ValueStateView;
use crate::domain::widths::{
    integer_value_spec, is_width, lemma_pow2_fits, lemma_pow2_widths, low_mask_spec,
    single_width_spec, type_width_spec, uint_max_is_all_ones, uint_max_spec,
};
use crate::transfer::binop::{
    binop_value_spec, checked_interval_spec, div_interval_spec, full_interval_spec, raw_result_spec,
};
use crate::transfer::context::{fold_spec, Ctx};
use crate::u256::{full, lemma_u256_injective, lemma_u256_of, lemma_u256_view, U256};
use vstd::arithmetic::power2::pow2;
use vstd::prelude::*;

verus! {

/// Known numbers are computed with as numbers below `2^256`: a sum, a difference or a product that
/// is none has no result, and neither has a quotient or a remainder by zero. Shifts go by the low
/// eight bits of the count.
pub proof fn known_numbers_are_computed_with(op: BinOp, x: U256, y: U256)
    ensures
        ({
            let r = fold_spec(op, x, y);
            &&& op is Add ==> (r is Some <==> x@ + y@ < pow2(256)) && (r is Some ==> r->0@ == x@
                + y@)
            &&& op is Sub ==> (r is Some <==> x@ >= y@) && (r is Some ==> r->0@ == x@ - y@)
            &&& op is Mul ==> (r is Some <==> x@ * y@ < pow2(256)) && (r is Some ==> r->0@ == x@
                * y@)
            &&& op is Div ==> (r is Some <==> y@ > 0) && (r is Some ==> r->0@ == x@ / y@)
            &&& op is Mod ==> (r is Some <==> y@ > 0) && (r is Some ==> r->0@ == x@ % y@)
            &&& op is Shl ==> r is Some && r->0@ == (x@ * pow2(y@ % 256)) % pow2(256)
            &&& op is Shr ==> r is Some && r->0@ == x@ / pow2(y@ % 256)
            &&& op is BitAnd || op is BitOr || op is Xor ==> r is Some
            &&& op is Eq || op is Neq || op is Lt || op is Le || op is Gt || op is Ge || op is And
                || op is Or || op is Range || op is Implies || op is Iff ==> r is None
        }),
{
    lemma_pow2_widths();
    lemma_u256_view(x);
    lemma_u256_view(y);
    if x@ + y@ < full() {
        lemma_u256_of(x@ + y@);
    }
    if x@ >= y@ {
        lemma_u256_of((x@ - y@) as nat);
    }
    if x@ * y@ < full() {
        lemma_u256_of(x@ * y@);
    }
    if y@ > 0 {
        assert(x@ / y@ <= x@) by {
            vstd::arithmetic::div_mod::lemma_div_is_ordered_by_denominator(
                x@ as int,
                1,
                y@ as int,
            );
        }
        assert(x@ % y@ <= x@) by {
            vstd::arithmetic::div_mod::lemma_mod_decreases(x@, y@);
        }
        lemma_u256_of(x@ / y@);
        lemma_u256_of(x@ % y@);
    }
    let s = y@ % 256;
    let p = pow2(s);
    vstd::arithmetic::power2::lemma_pow2_pos(s);
    vstd::arithmetic::div_mod::lemma_mod_bound((x@ * p) as int, full() as int);
    lemma_u256_of((x@ * p) % full());
    assert(x@ / p <= x@) by {
        vstd::arithmetic::div_mod::lemma_div_is_ordered_by_denominator(x@ as int, 1, p as int);
    }
    lemma_u256_of(x@ / p);
}

/// Bitwise operations on known numbers go bit by bit.
pub proof fn known_bits_are_computed_with(x: U256, y: U256, i: nat)
    ensures
        bit(fold_spec(BinOp::BitAnd, x, y)->0@, i) <==> bit(x@, i) && bit(y@, i),
        bit(fold_spec(BinOp::BitOr, x, y)->0@, i) <==> bit(x@, i) || bit(y@, i),
        bit(fold_spec(BinOp::Xor, x, y)->0@, i) <==> bit(x@, i) != bit(y@, i),
{
    lemma_bit_ops(x, y, i);
}

/// Integer types are as wide as they are named; a reference is as wide as what it refers to, and
/// anything else has no width.
pub proof fn types_are_as_wide_as_named(b: BuiltinTypeName, mutable: bool, types: Vec<SingleType>)
    ensures
        ({
            let width = type_width_spec(Type::Single(SingleType::Base(BaseType::Builtin(b))));
            &&& b is U8 ==> width == Some(8u16)
            &&& b is U16 ==> width == Some(16u16)
            &&& b is U32 ==> width == Some(32u16)
            &&& b is U64 ==> width == Some(64u16)
            &&& b is U128 ==> width == Some(128u16)
            &&& b is U256 ==> width == Some(256u16)
            &&& b is Bool || b is Address || b is Signer || b is Vector ==> width is None
            &&& type_width_spec(Type::Single(SingleType::Ref(mutable, BaseType::Builtin(b))))
                == width
            &&& single_width_spec(SingleType::Base(BaseType::Builtin(b))) == width
            &&& single_width_spec(SingleType::Ref(mutable, BaseType::Builtin(b))) == width
            &&& type_width_spec(Type::Single(SingleType::Base(BaseType::Other))) is None
            &&& type_width_spec(Type::Unit) is None
            &&& type_width_spec(Type::Multiple(types)) is None
        }),
{
}

/// A literal stands for its number.
pub proof fn literals_stand_for_their_number(a: u8, b: u16, c: u32, d: u64, e: u128, f: U256, t: bool)
    ensures
        integer_value_spec(Value::U8(a)) is Some && integer_value_spec(Value::U8(a))->0@ == a,
        integer_value_spec(Value::U16(b)) is Some && integer_value_spec(Value::U16(b))->0@ == b,
        integer_value_spec(Value::U32(c)) is Some && integer_value_spec(Value::U32(c))->0@ == c,
        integer_value_spec(Value::U64(d)) is Some && integer_value_spec(Value::U64(d))->0@ == d,
        integer_value_spec(Value::U128(e)) is Some && integer_value_spec(Value::U128(e))->0@ == e,
        integer_value_spec(Value::U256(f)) is Some && integer_value_spec(Value::U256(f))->0@ == f@,
        integer_value_spec(Value::Bool(t)) is None,
        integer_value_spec(Value::Other) is None,
{
}

/// Whether a range is that of all numbers of a type.
pub open spec fn is_full(interval: Interval, width: u16) -> bool {
    &&& !interval.bottom
    &&& interval.lower is Some && interval.lower->0@ == 0
    &&& interval.upper is Some && interval.upper->0@ == pow2(width as nat) - 1
}

/// Whether a range goes from one number to another, or ends before where the type does.
pub open spec fn goes_from_to(interval: Interval, low: int, high: int, width: u16) -> bool {
    let max = pow2(width as nat) - 1;
    &&& !interval.bottom
    &&& interval.lower is Some && interval.lower->0@ == low
    &&& interval.upper is Some && interval.upper->0@ == if high <= max {
        high
    } else {
        max
    }
}

/// Whether both ends of both ranges are known.
pub open spec fn have_ends(l: Interval, r: Interval) -> bool {
    l.lower is Some && l.upper is Some && r.lower is Some && r.upper is Some
}

/// The range of a sum, a difference, a product or a quotient is as tight as the ranges of its
/// operands allow: its ends are what the ends of the operands give, as far as that is a number of
/// 256 bits and of the type. Of a remainder, and where an end is missing, only the type is known.
pub proof fn ranges_are_tight(
    c: Ctx,
    exp: Exp,
    lhs_exp: Exp,
    lhs: ValueStateView,
    op: BinOp,
    rhs_exp: Exp,
    rhs: ValueStateView,
    st: AbstractStateView,
    width: u16,
)
    requires
        is_width(width),
        type_width_spec(exp.ty) == Some(width),
    ensures
        ({
            let range = binop_value_spec(c, exp, lhs_exp, lhs, op, rhs_exp, rhs, st).interval;
            let l = lhs.interval;
            let r = rhs.interval;
            let (a, b) = (l.lower->0@, l.upper->0@);
            let (p, q) = (r.lower->0@, r.upper->0@);
            let known = have_ends(l, r);
            let max = pow2(256);
            &&& op is Add && known && a + p < max && b + q < max ==> goes_from_to(
                range,
                (a + p) as int,
                (b + q) as int,
                width,
            )
            &&& op is Add && !(known && a + p < max && b + q < max) ==> is_full(range, width)
            &&& op is Sub && known && b >= p ==> goes_from_to(
                range,
                if a >= q {
                    a - q
                } else {
                    0
                },
                b - p,
                width,
            )
            &&& op is Sub && !(known && b >= p) ==> is_full(range, width)
            &&& op is Mul && known && a * p < max && b * q < max ==> goes_from_to(
                range,
                (a * p) as int,
                (b * q) as int,
                width,
            )
            &&& op is Mul && !(known && a * p < max && b * q < max) ==> is_full(range, width)
            &&& op is Div && known && p > 0 && q > 0 ==> !range.bottom && range.lower is Some
                && range.lower->0@ == a / q && range.upper is Some && range.upper->0@ == b / p
            &&& op is Div && !(known && p > 0) ==> is_full(range, width)
            &&& op is Mod ==> is_full(range, width)
            &&& op is Eq || op is Neq || op is Lt || op is Le || op is Gt || op is Ge || op is And
                || op is Or ==> !range.bottom && range.lower is Some && range.lower->0@ == 0
                && range.upper is Some && range.upper->0@ == 1
        }),
{
    lemma_range_of(c, exp, lhs_exp, lhs, op, rhs_exp, rhs, st, width);
    lemma_sum(lhs.interval, rhs.interval, width);
    lemma_difference(lhs.interval, rhs.interval, width);
    lemma_product(lhs.interval, rhs.interval, width);
    lemma_quotient(lhs.interval, rhs.interval, width);
    lemma_full(width);
}

proof fn lemma_range_of(
    c: Ctx,
    exp: Exp,
    lhs_exp: Exp,
    lhs: ValueStateView,
    op: BinOp,
    rhs_exp: Exp,
    rhs: ValueStateView,
    st: AbstractStateView,
    width: u16,
)
    requires
        type_width_spec(exp.ty) == Some(width),
    ensures
        ({
            let range = binop_value_spec(c, exp, lhs_exp, lhs, op, rhs_exp, rhs, st).interval;
            let l = lhs.interval;
            let r = rhs.interval;
            &&& op is Add ==> range == checked_interval_spec(l, r, Some(width), BinOp::Add)
            &&& op is Sub ==> range == checked_interval_spec(l, r, Some(width), BinOp::Sub)
            &&& op is Mul ==> range == checked_interval_spec(l, r, Some(width), BinOp::Mul)
            &&& op is Div ==> range == div_interval_spec(l, r, Some(width))
            &&& op is Mod ==> range == full_interval_spec(Some(width))
            &&& op is Eq || op is Neq || op is Lt || op is Le || op is Gt || op is Ge || op is And
                || op is Or ==> !range.bottom && range.lower is Some && range.lower->0@ == 0
                && range.upper is Some && range.upper->0@ == 1
        }),
{
    reveal(binop_value_spec);
    reveal(raw_result_spec);
}

proof fn lemma_full(width: u16)
    requires
        is_width(width),
    ensures
        is_full(full_interval_spec(Some(width)), width),
{
    uint_max_is_all_ones(width);
}

proof fn lemma_sum(l: Interval, r: Interval, width: u16)
    requires
        is_width(width),
    ensures
        ({
            let range = checked_interval_spec(l, r, Some(width), BinOp::Add);
            let low = l.lower->0@ + r.lower->0@;
            let high = l.upper->0@ + r.upper->0@;
            let fits = have_ends(l, r) && low < pow2(256) && high < pow2(256);
            &&& fits ==> goes_from_to(range, low as int, high as int, width)
            &&& !fits ==> is_full(range, width)
        }),
{
    lemma_full(width);
    uint_max_is_all_ones(width);
    known_numbers_are_computed_with(BinOp::Add, l.lower->0, r.lower->0);
    known_numbers_are_computed_with(BinOp::Add, l.upper->0, r.upper->0);
}

proof fn lemma_difference(l: Interval, r: Interval, width: u16)
    requires
        is_width(width),
    ensures
        ({
            let range = checked_interval_spec(l, r, Some(width), BinOp::Sub);
            let (a, b) = (l.lower->0@, l.upper->0@);
            let (p, q) = (r.lower->0@, r.upper->0@);
            let fits = have_ends(l, r) && b >= p;
            let low = if a >= q {
                a - q
            } else {
                0
            };
            &&& fits ==> goes_from_to(range, low, b - p, width)
            &&& !fits ==> is_full(range, width)
        }),
{
    lemma_full(width);
    uint_max_is_all_ones(width);
    known_numbers_are_computed_with(BinOp::Sub, l.lower->0, r.upper->0);
    known_numbers_are_computed_with(BinOp::Sub, l.upper->0, r.lower->0);
}

proof fn lemma_product(l: Interval, r: Interval, width: u16)
    requires
        is_width(width),
    ensures
        ({
            let range = checked_interval_spec(l, r, Some(width), BinOp::Mul);
            let low = l.lower->0@ * r.lower->0@;
            let high = l.upper->0@ * r.upper->0@;
            let fits = have_ends(l, r) && low < pow2(256) && high < pow2(256);
            &&& fits ==> goes_from_to(range, low as int, high as int, width)
            &&& !fits ==> is_full(range, width)
        }),
{
    lemma_full(width);
    uint_max_is_all_ones(width);
    known_numbers_are_computed_with(BinOp::Mul, l.lower->0, r.lower->0);
    known_numbers_are_computed_with(BinOp::Mul, l.upper->0, r.upper->0);
}

proof fn lemma_quotient(l: Interval, r: Interval, width: u16)
    requires
        is_width(width),
    ensures
        ({
            let range = div_interval_spec(l, r, Some(width));
            let (a, b) = (l.lower->0@, l.upper->0@);
            let (p, q) = (r.lower->0@, r.upper->0@);
            &&& have_ends(l, r) && p > 0 && q > 0 ==> !range.bottom && range.lower is Some
                && range.lower->0@ == a / q && range.upper is Some && range.upper->0@ == b / p
            &&& !(have_ends(l, r) && p > 0) ==> is_full(range, width)
        }),
{
    lemma_full(width);
    known_numbers_are_computed_with(BinOp::Div, l.lower->0, r.upper->0);
    known_numbers_are_computed_with(BinOp::Div, l.upper->0, r.lower->0);
}

/// Of the result of arithmetic on an untyped value no range is known.
pub proof fn untyped_results_have_no_range(
    c: Ctx,
    exp: Exp,
    lhs_exp: Exp,
    lhs: ValueStateView,
    op: BinOp,
    rhs_exp: Exp,
    rhs: ValueStateView,
    st: AbstractStateView,
)
    requires
        type_width_spec(exp.ty) is None,
        op is Add || op is Sub || op is Mul || op is Mod,
    ensures
        ({
            let value = binop_value_spec(c, exp, lhs_exp, lhs, op, rhs_exp, rhs, st);
            value.interval.lower is None && value.interval.upper is None
                && !value.interval.bottom && value.bit_facts is None
        }),
{
    reveal(binop_value_spec);
    reveal(raw_result_spec);
}

/// The value of which nothing but the type is known has all numbers of the type in its range, and
/// no bit of it is known but those above the width.
pub proof fn nothing_but_the_type_is_known(width: u16, i: nat)
    requires
        is_width(width),
        i < 256,
    ensures
        is_full(ValueStateView::of_width(width).interval, width),
        ({
            let facts = ValueStateView::of_width(width).bit_facts;
            &&& facts is Some
            &&& facts->0.width == width
            &&& bit(facts->0.known_zero@, i) <==> i >= width
            &&& !bit(facts->0.known_one@, i)
        }),
{
    let mask = uint_max_spec(width);
    uint_max_is_all_ones(width);
    lemma_bit_mask(width, i);
    lemma_bit_complement(mask, i);
    lemma_bit_of_zero(i);
    let facts = BitFacts::unknown_spec(width);
    let zero = U256::zero_spec();
    assert forall|k: nat| k < 256 implies #[trigger] bit(facts.min_value_spec()@, k) == bit(
        zero@,
        k,
    ) by {
        lemma_bit_ops(zero, mask, k);
        lemma_bit_of_zero(k);
    }
    lemma_bits_determine(facts.min_value_spec(), zero);
    assert forall|k: nat| k < 256 implies #[trigger] bit(facts.max_value_spec()@, k) == bit(
        mask@,
        k,
    ) by {
        lemma_bit_ops(mask, complement(facts.known_zero), k);
        lemma_bit_complement(facts.known_zero, k);
        lemma_bit_complement(mask, k);
    }
    lemma_bits_determine(facts.max_value_spec(), mask);
}

pub proof fn lemma_bit_of_zero(i: nat)
    ensures
        !bit(U256::zero_spec()@, i),
{
    vstd::arithmetic::power2::lemma_pow2_pos(i);
    vstd::arithmetic::div_mod::lemma_basic_div(0, pow2(i) as int);
}

/// What is known of the bits of a bitwise result is all that follows, bit by bit, from what is known
/// of the bits of its operands.
pub proof fn bitwise_facts_are_tight(a: BitFacts, b: BitFacts, width: u16, i: nat)
    requires
        is_width(width),
        i < 256,
    ensures
        ({
            let (az, ao) = (bit(a.known_zero@, i), bit(a.known_one@, i));
            let (bz, bo) = (bit(b.known_zero@, i), bit(b.known_one@, i));
            let and = a.bitand_spec(b, width);
            let or = a.bitor_spec(b, width);
            let xor = a.bitxor_spec(b, width);
            let out = i >= width;
            &&& and.width == width && or.width == width && xor.width == width
            &&& bit(and.known_zero@, i) <==> out || az || bz
            &&& bit(and.known_one@, i) <==> !out && ao && bo
            &&& bit(or.known_zero@, i) <==> out || az && bz
            &&& bit(or.known_one@, i) <==> !out && (ao || bo)
            &&& bit(xor.known_zero@, i) <==> out || az && bz || ao && bo
            &&& bit(xor.known_one@, i) <==> !out && (ao && bz || az && bo)
        }),
{
    let mask = uint_max_spec(width);
    lemma_bit_mask(width, i);
    lemma_bit_complement(mask, i);
    lemma_bit_ops(a.known_zero, b.known_zero, i);
    lemma_bit_ops(a.known_one, b.known_one, i);
    lemma_bit_ops(a.known_one, b.known_zero, i);
    lemma_bit_ops(a.known_zero, b.known_one, i);
    let zz = a.known_zero.and_spec(b.known_zero);
    let oo = a.known_one.and_spec(b.known_one);
    let oz = a.known_one.and_spec(b.known_zero);
    let zo = a.known_zero.and_spec(b.known_one);
    lemma_bit_ops(zz, oo, i);
    lemma_bit_ops(oz, zo, i);
    lemma_bit_ops(a.known_zero.or_spec(b.known_zero), complement(mask), i);
    lemma_bit_ops(zz, complement(mask), i);
    lemma_bit_ops(zz.or_spec(oo), complement(mask), i);
    lemma_bit_ops(oo, mask, i);
    lemma_bit_ops(a.known_one.or_spec(b.known_one), mask, i);
    lemma_bit_ops(oz.or_spec(zo), mask, i);
}

/// A shift moves what is known of the bits, and fills up with zeros.
pub proof fn shifted_facts_are_tight(a: BitFacts, amount: u8, width: u16, i: nat)
    requires
        is_width(width),
        i < 256,
    ensures
        ({
            let left = a.shift_left_spec(amount, width);
            let right = a.shift_right_spec(amount, width);
            let s = amount as nat;
            let out = i >= width;
            &&& left.width == width && right.width == width
            &&& bit(left.known_zero@, i) <==> out || i < s || bit(a.known_zero@, (i - s) as nat)
            &&& bit(left.known_one@, i) <==> !out && i >= s && bit(a.known_one@, (i - s) as nat)
            &&& bit(right.known_zero@, i) <==> out || bit(a.known_zero@, i + s)
            &&& bit(right.known_one@, i) <==> !out && bit(a.known_one@, i + s)
        }),
{
    let s = amount as nat;
    let mask = uint_max_spec(width);
    let low = low_mask_spec(amount);
    lemma_bit_mask(width, i);
    lemma_bit_complement(mask, i);
    lemma_pow2_fits(s);
    lemma_u256_of((pow2(s) - 1) as nat);
    lemma_bit_ones(s, i);
    lemma_bit_shl(a.known_zero, s, i);
    lemma_bit_shl(a.known_one, s, i);
    lemma_bit_shr(a.known_zero, s, i);
    lemma_bit_shr(a.known_one, s, i);
    lemma_bit_ops(a.known_zero.shl_spec(s), low, i);
    lemma_bit_ops(a.known_zero.shl_spec(s).or_spec(low), complement(mask), i);
    lemma_bit_ops(a.known_one.shl_spec(s), mask, i);
    lemma_bit_ops(a.known_zero.shr_spec(s), complement(mask), i);
    lemma_bit_ops(a.known_one.shr_spec(s), mask, i);
}

/// Where two paths meet, a bit is known where both know it and agree; a cast keeps what is known of
/// the bits that are left; and of a known number all bits of the type are known.
pub proof fn joined_facts_are_tight(a: BitFacts, b: BitFacts, width: u16, x: U256, i: nat)
    requires
        is_width(a.width),
        is_width(b.width),
        is_width(width),
        i < 256,
    ensures
        ({
            let joined = a.join_spec(b);
            let wide = if a.width >= b.width {
                a.width
            } else {
                b.width
            };
            &&& joined.width == wide
            &&& bit(joined.known_zero@, i) <==> i >= wide || bit(a.known_zero@, i) && bit(
                b.known_zero@,
                i,
            )
            &&& bit(joined.known_one@, i) <==> i < wide && bit(a.known_one@, i) && bit(
                b.known_one@,
                i,
            )
            &&& a.narrowed(width).width == width
            &&& bit(a.narrowed(width).known_zero@, i) <==> i >= width || bit(a.known_zero@, i)
            &&& bit(a.narrowed(width).known_one@, i) <==> i < width && bit(a.known_one@, i)
            &&& BitFacts::exact_spec(width, x).width == width
            &&& bit(BitFacts::exact_spec(width, x).known_one@, i) <==> i < width && bit(x@, i)
            &&& bit(BitFacts::exact_spec(width, x).known_zero@, i) <==> i >= width || !bit(x@, i)
        }),
{
    let wide = if a.width >= b.width {
        a.width
    } else {
        b.width
    };
    let all = uint_max_spec(wide);
    let mask = uint_max_spec(width);
    lemma_bit_mask(wide, i);
    lemma_bit_mask(width, i);
    lemma_bit_complement(all, i);
    lemma_bit_complement(mask, i);
    lemma_bit_ops(a.known_zero, b.known_zero, i);
    lemma_bit_ops(a.known_one, b.known_one, i);
    lemma_bit_ops(a.known_zero.and_spec(b.known_zero), complement(all), i);
    lemma_bit_ops(a.known_one.and_spec(b.known_one), all, i);
    lemma_bit_ops(a.known_zero, complement(mask), i);
    lemma_bit_ops(a.known_one, mask, i);
    lemma_bit_ops(x, mask, i);
    lemma_bit_complement(x.and_spec(mask), i);
}

/// Whether all bits of the type are known.
pub open spec fn all_bits_known(facts: BitFacts) -> bool {
    forall|i: nat|
        i < facts.width ==> #[trigger] bit(facts.known_zero@, i) || bit(facts.known_one@, i)
}

/// A value is known exactly where its range has one number, or all its bits are known; its number is
/// that of the range, else the one with the bits that are known to be one.
pub proof fn values_are_known_by_range_or_bits(value: ValueStateView, i: nat)
    requires
        value.valid(),
        i < 256,
    ensures
        ({
            let one = !value.interval.bottom && value.interval.lower is Some
                && value.interval.upper is Some && value.interval.lower->0@
                == value.interval.upper->0@;
            let bits = value.bit_facts is Some && all_bits_known(value.bit_facts->0);
            &&& value.exact_value_spec() is Some <==> one || bits
            &&& one ==> value.exact_value_spec()->0@ == value.interval.lower->0@
            &&& !one && bits ==> (bit(value.exact_value_spec()->0@, i) <==> i
                < value.bit_facts->0.width && bit(value.bit_facts->0.known_one@, i))
        }),
{
    if value.interval.lower is Some && value.interval.upper is Some
        && value.interval.lower->0@ == value.interval.upper->0@ {
        lemma_u256_injective(value.interval.lower->0, value.interval.upper->0);
    }
    if let Some(facts) = value.bit_facts {
        let mask = uint_max_spec(facts.width);
        let known = facts.known_zero.or_spec(facts.known_one).and_spec(mask);
        lemma_bit_mask(facts.width, i);
        lemma_bit_ops(facts.known_one, mask, i);
        assert forall|k: nat| k < 256 implies #[trigger] bit(known@, k) == (k < facts.width && (
        bit(facts.known_zero@, k) || bit(facts.known_one@, k))) by {
            lemma_bit_mask(facts.width, k);
            lemma_bit_ops(facts.known_zero, facts.known_one, k);
            lemma_bit_ops(facts.known_zero.or_spec(facts.known_one), mask, k);
        }
        if all_bits_known(facts) {
            assert forall|k: nat| k < 256 implies #[trigger] bit(known@, k) == bit(mask@, k) by {
                lemma_bit_mask(facts.width, k);
                if k < facts.width {
                    assert(bit(facts.known_zero@, k) || bit(facts.known_one@, k));
                }
            }
            lemma_bits_determine(known, mask);
        }
        if known == mask {
            assert forall|k: nat| k < facts.width implies #[trigger] bit(facts.known_zero@, k)
                || bit(facts.known_one@, k) by {
                lemma_bit_mask(facts.width, k);
                assert(bit(known@, k));
            }
        }
    }
}

/// A value is as wide as its bits are known to be; else as the narrowest type that holds all of its
/// range; and has no width where neither is known.
pub proof fn values_are_as_wide_as_known(value: ValueStateView, width: u16)
    requires
        is_width(width),
    ensures
        ({
            let found = value.width_spec();
            let upper = value.interval.upper;
            &&& value.bit_facts is Some ==> found == Some(value.bit_facts->0.width)
            &&& value.bit_facts is None && upper is None ==> found is None
            &&& value.bit_facts is None && upper is Some ==> {
                &&& found is Some
                &&& is_width(found->0)
                &&& upper->0@ < pow2(found->0 as nat)
                &&& upper->0@ < pow2(width as nat) ==> found->0 <= width
            }
        }),
{
    lemma_pow2_widths();
    uint_max_is_all_ones(8);
    uint_max_is_all_ones(16);
    uint_max_is_all_ones(32);
    uint_max_is_all_ones(64);
    uint_max_is_all_ones(128);
    uint_max_is_all_ones(256);
    if let Some(upper) = value.interval.upper {
        lemma_u256_view(upper);
    }
}

} // verus!
