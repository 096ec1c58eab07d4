//! Numbers and what is known of them: 256-bit integers, their texts, ranges and bits.

use sui_move_analyzer::ast::{BaseType, BinOp, BuiltinTypeName, SingleType, Type, Value};
use sui_move_analyzer::domain::bit_facts::BitFacts;
use sui_move_analyzer::domain::interval::Interval;
use sui_move_analyzer::domain::value::{single_interval, type_interval, ValueState};
use sui_move_analyzer::domain::widths::{
    builtin_width, integer_value, is_numeric_binop, low_mask, single_width, type_width, uint_max,
    width_mask,
};
use sui_move_analyzer::text::{write_hash, write_u128, write_u256};
use sui_move_analyzer::u256::U256;

fn n(value: u128) -> U256 {
    U256::from_u128(value)
}

fn big(hi: u128, lo: u128) -> U256 {
    U256 { hi, lo }
}

fn unsigned(name: BuiltinTypeName) -> SingleType {
    SingleType::Base(BaseType::Builtin(name))
}

#[test]
fn sums_carry_and_overflow() {
    assert_eq!(n(u128::MAX).checked_add(n(1)), Some(big(1, 0)));
    assert_eq!(U256::max_value().checked_add(U256::one()), None);
    assert_eq!(U256::max_value().checked_add(U256::zero()), Some(U256::max_value()));
    assert_eq!(n(40).plus(n(2)), n(42));
}

#[test]
fn differences_borrow_and_underflow() {
    assert_eq!(big(1, 0).checked_sub(n(1)), Some(n(u128::MAX)));
    assert_eq!(n(1).checked_sub(n(2)), None);
    assert_eq!(big(2, 5).minus(big(1, 6)), big(0, u128::MAX));
}

#[test]
fn products_reach_the_upper_half() {
    assert_eq!(n(1 << 100).checked_mul(n(1 << 100)), Some(big(1 << 72, 0)));
    assert_eq!(
        n(u128::MAX).checked_mul(n(u128::MAX)),
        Some(big(u128::MAX - 1, 1)),
    );
    assert_eq!(big(1, 0).checked_mul(big(1, 0)), None);
    assert_eq!(big(1 << 127, 0).checked_mul(n(2)), None);
}

#[test]
fn quotients_and_remainders_fit_together() {
    let dividend = big(1, 7);
    let divisor = n(10);
    let quotient = dividend.checked_div(divisor).unwrap();
    let rest = dividend.checked_rem(divisor).unwrap();
    assert!(rest.lt(divisor));
    assert_eq!(quotient.checked_mul(divisor).unwrap().plus(rest), dividend);
    assert_eq!(rest, n(3));
    assert_eq!(dividend.checked_div(U256::zero()), None);
    assert_eq!(dividend.checked_rem(U256::zero()), None);
}

#[test]
fn shifts_move_across_the_halves() {
    assert_eq!(n(1).shl(200), big(1 << 72, 0));
    assert_eq!(n(1).shl(0), n(1));
    assert_eq!(n(1).shl(128), big(1, 0));
    assert_eq!(big(1 << 72, 0).shr(200), n(1));
    assert_eq!(U256::max_value().shr(255), n(1));
    assert_eq!(U256::max_value().shl(255), big(1 << 127, 0));
    assert_eq!(n(0x1ff).low_byte(), 0xff);
}

#[test]
fn orders_compare_the_upper_half_first() {
    assert!(n(u128::MAX).lt(big(1, 0)));
    assert!(!big(1, 0).lt(big(1, 0)));
    assert!(big(1, 0).le(big(1, 0)));
    assert_eq!(big(1, 0).min(n(9)), n(9));
    assert_eq!(big(1, 0).max(n(9)), big(1, 0));
}

#[test]
fn bits_are_combined_in_both_halves() {
    assert_eq!(big(12, 10).bitand(big(10, 12)), big(8, 8));
    assert_eq!(big(12, 10).bitor(big(10, 12)), big(14, 14));
    assert_eq!(big(12, 10).bitxor(big(10, 12)), big(6, 6));
}

#[test]
fn numbers_are_written_in_full() {
    assert_eq!(write_u128(0), "0");
    assert_eq!(write_u128(u128::MAX), "340282366920938463463374607431768211455");
    assert_eq!(
        write_u256(U256::max_value()),
        "115792089237316195423570985008687907853269984665640564039457584007913129639935",
    );
    assert_eq!(write_u256(big(1, 0)), "340282366920938463463374607431768211456");
    assert_eq!(
        write_hash(n(255)),
        "00000000000000000000000000000000000000000000000000000000000000ff",
    );
}

#[test]
fn widths_of_types() {
    assert_eq!(builtin_width(&BuiltinTypeName::U8), Some(8));
    assert_eq!(builtin_width(&BuiltinTypeName::U256), Some(256));
    assert_eq!(builtin_width(&BuiltinTypeName::Address), None);
    assert_eq!(builtin_width(&BuiltinTypeName::Bool), None);
    assert_eq!(single_width(&unsigned(BuiltinTypeName::U64)), Some(64));
    assert_eq!(type_width(&Type::Single(unsigned(BuiltinTypeName::U128))), Some(128));
    assert_eq!(type_width(&Type::Unit), None);
    assert_eq!(type_width(&Type::Multiple(vec![unsigned(BuiltinTypeName::U8)])), None);
}

#[test]
fn masks_have_the_low_bits() {
    assert_eq!(uint_max(8), n(255));
    assert_eq!(uint_max(64), n(u64::MAX as u128));
    assert_eq!(uint_max(128), n(u128::MAX));
    assert_eq!(uint_max(256), U256::max_value());
    assert_eq!(width_mask(16), n(0xffff));
    assert_eq!(low_mask(0), U256::zero());
    assert_eq!(low_mask(1), n(1));
    assert_eq!(low_mask(130), big(3, u128::MAX));
}

#[test]
fn constants_are_numbers_or_not() {
    assert_eq!(integer_value(&Value::U8(7)), Some(n(7)));
    assert_eq!(integer_value(&Value::U256(big(1, 2))), Some(big(1, 2)));
    assert_eq!(integer_value(&Value::Other), None);
    assert!(is_numeric_binop(BinOp::Shl));
    assert!(!is_numeric_binop(BinOp::And));
}

#[test]
fn joined_ranges_hold_both() {
    let joined = Interval::between(n(1), n(3)).join(&Interval::between(n(7), n(9)));
    assert_eq!(joined, Interval::between(n(1), n(9)));
    assert_eq!(joined.join(&Interval::bottom()), joined);
    assert_eq!(Interval::bottom().join(&joined), joined);
    assert_eq!(joined.join(&Interval::top()), Interval::top());
}

#[test]
fn ranges_are_cut_to_what_is_in_both() {
    let range = Interval::between(n(5), n(20));
    assert_eq!(range.intersect(None, Some(n(10))), Interval::between(n(5), n(10)));
    assert_eq!(range.intersect(Some(n(7)), None), Interval::between(n(7), n(20)));
    assert_eq!(range.intersect(Some(n(21)), None), Interval::bottom());
    assert_eq!(range.intersect(Some(n(20)), Some(n(20))).is_singleton(), Some(n(20)));
    assert_eq!(Interval::top().is_singleton(), None);
}

#[test]
fn ranges_are_described() {
    assert_eq!(Interval::between(n(0), n(255)).describe(), "[0, 255]");
    assert!(Interval::between(n(1), n(2)).positive());
    assert!(!Interval::between(n(0), n(2)).positive());
    assert!(!Interval::top().positive());
    assert!(Interval::between(n(1), n(2)).at_most(n(2)));
    assert!(!Interval::between(n(1), n(3)).at_most(n(2)));
    assert!(!Interval::top().at_most(U256::max_value()));
}

#[test]
fn exact_bits_are_known() {
    let facts = BitFacts::exact(8, n(0x1a5));
    assert_eq!(facts.exact_value(), Some(n(0xa5)));
    assert_eq!(facts.min_value(), n(0xa5));
    assert_eq!(facts.max_value(), n(0xa5));
    let unknown = BitFacts::unknown(8);
    assert_eq!(unknown.exact_value(), None);
    assert_eq!(unknown.min_value(), n(0));
    assert_eq!(unknown.max_value(), n(255));
    assert_eq!(unknown.mask(), n(255));
}

#[test]
fn joined_bits_are_those_on_which_both_agree() {
    let joined = BitFacts::exact(8, n(0b1100)).join(&BitFacts::exact(8, n(0b1010)));
    assert_eq!(joined.min_value(), n(0b1000));
    assert_eq!(joined.max_value(), n(0b1110));
    assert!(joined.discarded_bits_may_be_non_zero(n(0b0110)));
    assert!(!joined.discarded_bits_may_be_non_zero(n(0b0001)));
}

#[test]
fn masks_bound_what_is_not_known() {
    let masked = BitFacts::unknown(64).bitand(&BitFacts::exact(64, n(0xff00)), 64);
    assert_eq!(masked.max_value(), n(0xff00));
    assert_eq!(masked.min_value(), n(0));
    assert!(!masked.discarded_bits_may_be_non_zero(n(0xff)));
    let set = BitFacts::unknown(64).bitor(&BitFacts::exact(64, n(1)), 64);
    assert_eq!(set.min_value(), n(1));
    let flipped = BitFacts::exact(8, n(0xf0)).bitxor(&BitFacts::exact(8, n(0xff)), 8);
    assert_eq!(flipped.exact_value(), Some(n(0x0f)));
}

#[test]
fn shifted_bits_are_known() {
    let left = BitFacts::exact(8, n(0b1001_0001)).shift_left(2, 8);
    assert_eq!(left.exact_value(), Some(n(0b0100_0100)));
    let right = BitFacts::exact(8, n(0b1001_0001)).shift_right(4, 8);
    assert_eq!(right.exact_value(), Some(n(0b1001)));
    let unknown = BitFacts::unknown(64).shift_left(4, 64);
    assert!(!unknown.discarded_bits_may_be_non_zero(n(15)));
    let narrow = BitFacts::exact(64, n(0x1ff)).narrow(8);
    assert_eq!(narrow.exact_value(), Some(n(0xff)));
}

#[test]
fn values_of_types_have_their_ranges() {
    let byte = single_interval(&unsigned(BuiltinTypeName::U8));
    assert_eq!(byte.interval, Interval::between(n(0), n(255)));
    assert_eq!(byte.width(), Some(8));
    assert_eq!(byte.exact_value(), None);
    let other = type_interval(&Type::Unit);
    assert_eq!(other.interval, Interval::top());
    assert_eq!(other.width(), None);
    let exact = ValueState::exact_uint(64, n(5));
    assert_eq!(exact.exact_value(), Some(n(5)));
    assert!(exact.may_have_non_zero_bits(n(4)));
    assert!(!exact.may_have_non_zero_bits(n(2)));
    assert_eq!(ValueState::either_bool().interval, Interval::between(n(0), n(1)));
}

#[test]
fn known_bits_narrow_a_range() {
    let mut value = ValueState::with_width(64);
    value.bit_facts = Some(BitFacts::exact(64, n(9)));
    value.refine_with_bit_facts();
    assert_eq!(value.interval, Interval::between(n(9), n(9)));
    let joined = value.join(&ValueState::exact_uint(64, n(12)));
    assert_eq!(joined.interval, Interval::between(n(9), n(12)));
    assert!(!joined.may_have_non_zero_bits(n(2)));
    assert!(joined.may_have_non_zero_bits(n(4)));
}
