//! Integer types and their widths.

use crate::ast::{BaseType, BinOp, BuiltinTypeName, SingleType, Type, Value};
use crate::u256::{full, half, lemma_u256_of, lemma_u256_view, u256_of, U256};
use vstd::arithmetic::power2::pow2;
use vstd::prelude::*;

verus! {

pub open spec fn builtin_width_spec(builtin: BuiltinTypeName) -> Option<u16> {
    match builtin {
        BuiltinTypeName::U8 => Some(8),
        BuiltinTypeName::U16 => Some(16),
        BuiltinTypeName::U32 => Some(32),
        BuiltinTypeName::U64 => Some(64),
        BuiltinTypeName::U128 => Some(128),
        BuiltinTypeName::U256 => Some(256),
        _ => None,
    }
}

/// The width in bits of an integer type.
pub fn builtin_width(builtin: &BuiltinTypeName) -> (r: Option<u16>)
    ensures
        r == builtin_width_spec(*builtin),
{
    match builtin {
        BuiltinTypeName::U8 => Some(8),
        BuiltinTypeName::U16 => Some(16),
        BuiltinTypeName::U32 => Some(32),
        BuiltinTypeName::U64 => Some(64),
        BuiltinTypeName::U128 => Some(128),
        BuiltinTypeName::U256 => Some(256),
        _ => None,
    }
}

pub open spec fn base_builtin_spec(base: BaseType) -> Option<BuiltinTypeName> {
    match base {
        BaseType::Builtin(b) => Some(b),
        BaseType::Other => None,
    }
}

pub open spec fn single_builtin_spec(single: SingleType) -> Option<BuiltinTypeName> {
    match single {
        SingleType::Base(base) => base_builtin_spec(base),
        SingleType::Ref(_, base) => base_builtin_spec(base),
    }
}

pub open spec fn type_builtin_spec(ty: Type) -> Option<BuiltinTypeName> {
    match ty {
        Type::Single(single) => single_builtin_spec(single),
        _ => None,
    }
}

/// The builtin type that a type, or what it refers to, is.
pub fn type_builtin(ty: &Type) -> (r: Option<BuiltinTypeName>)
    ensures
        r == type_builtin_spec(*ty),
{
    match ty {
        Type::Single(single) => single_builtin(single),
        _ => None,
    }
}

pub fn single_builtin(single: &SingleType) -> (r: Option<BuiltinTypeName>)
    ensures
        r == single_builtin_spec(*single),
{
    match single {
        SingleType::Base(base) => base_builtin(base),
        SingleType::Ref(_, base) => base_builtin(base),
    }
}

pub fn base_builtin(base: &BaseType) -> (r: Option<BuiltinTypeName>)
    ensures
        r == base_builtin_spec(*base),
{
    match base {
        BaseType::Builtin(b) => Some(*b),
        BaseType::Other => None,
    }
}

/// The width of a type that is an integer type.
pub open spec fn type_width_spec(ty: Type) -> Option<u16> {
    match type_builtin_spec(ty) {
        Some(b) => builtin_width_spec(b),
        None => None,
    }
}

pub fn type_width(ty: &Type) -> (r: Option<u16>)
    ensures
        r == type_width_spec(*ty),
{
    match type_builtin(ty) {
        Some(b) => builtin_width(&b),
        None => None,
    }
}

pub open spec fn single_width_spec(ty: SingleType) -> Option<u16> {
    match single_builtin_spec(ty) {
        Some(b) => builtin_width_spec(b),
        None => None,
    }
}

pub fn single_width(ty: &SingleType) -> (r: Option<u16>)
    ensures
        r == single_width_spec(*ty),
{
    match single_builtin(ty) {
        Some(b) => builtin_width(&b),
        None => None,
    }
}

/// Whether `width` is the width of an integer type.
pub open spec fn is_width(width: u16) -> bool {
    width == 8 || width == 16 || width == 32 || width == 64 || width == 128 || width == 256
}

pub open spec fn uint_max_spec(width: u16) -> U256 {
    match width {
        8 => U256 { hi: 0, lo: 0xff },
        16 => U256 { hi: 0, lo: 0xffff },
        32 => U256 { hi: 0, lo: 0xffff_ffff },
        64 => U256 { hi: 0, lo: 0xffff_ffff_ffff_ffff },
        128 => U256 { hi: 0, lo: u128::MAX },
        _ => U256::max_value_spec(),
    }
}

/// The largest value of an unsigned type of this width; of any other width, that of 256 bits.
pub fn uint_max(width: u16) -> (r: U256)
    ensures
        r == uint_max_spec(width),
{
    match width {
        8 => U256::from_u128(0xff),
        16 => U256::from_u128(0xffff),
        32 => U256::from_u128(0xffff_ffff),
        64 => U256::from_u128(0xffff_ffff_ffff_ffff),
        128 => U256::from_u128(u128::MAX),
        _ => U256::max_value(),
    }
}

/// The bits that a value of this width can have.
pub fn width_mask(width: u16) -> (r: U256)
    ensures
        r == uint_max_spec(width),
{
    uint_max(width)
}

/// The powers of two that are one more than the largest value of a type.
pub proof fn lemma_pow2_widths()
    ensures
        pow2(0) == 1,
        pow2(8) == 0x100,
        pow2(16) == 0x1_0000,
        pow2(32) == 0x1_0000_0000,
        pow2(64) == 0x1_0000_0000_0000_0000,
        pow2(128) == half(),
        pow2(256) == full(),
{
    vstd::arithmetic::power2::lemma2_to64();
    vstd::arithmetic::power2::lemma2_to64_rest();
    vstd::arithmetic::power2::lemma_pow2_adds(64, 64);
    vstd::arithmetic::power2::lemma_pow2_adds(128, 128);
    let h = pow2(128);
    assert(h * h == full()) by (nonlinear_arith)
        requires
            h == half(),
    ;
}

/// The largest value of a type of `width` bits is `2^width - 1`.
pub proof fn uint_max_is_all_ones(width: u16)
    requires
        is_width(width),
    ensures
        uint_max_spec(width)@ == pow2(width as nat) - 1,
{
    lemma_pow2_widths();
}

/// A mask of the low `shift` bits.
pub open spec fn low_mask_spec(shift: u8) -> U256 {
    u256_of((pow2(shift as nat) - 1) as nat)
}

/// `2^n` is below `2^256` for an `n` below 256.
pub proof fn lemma_pow2_fits(n: nat)
    requires
        n < 256,
    ensures
        0 < pow2(n) < full(),
{
    vstd::arithmetic::power2::lemma_pow2_pos(n);
    vstd::arithmetic::power2::lemma_pow2_strictly_increases(n, 256);
    lemma_pow2_widths();
}

pub fn low_mask(shift: u8) -> (r: U256)
    ensures
        r == low_mask_spec(shift),
        r@ == pow2(shift as nat) - 1,
{
    proof {
        lemma_pow2_fits(shift as nat);
        lemma_u256_of((pow2(shift as nat) - 1) as nat);
        lemma_pow2_widths();
    }
    if shift == 0 {
        proof {
            lemma_u256_view(U256::zero());
        }
        return U256::zero();
    }
    let one: U256 = U256::one();
    let top: U256 = one.shl(shift);
    proof {
        assert(1 * pow2(shift as nat) == pow2(shift as nat)) by (nonlinear_arith);
        vstd::arithmetic::div_mod::lemma_small_mod(pow2(shift as nat), full());
        lemma_u256_of(pow2(shift as nat));
    }
    let r: U256 = top.minus(one);
    proof {
        lemma_u256_view(r);
    }
    r
}

pub open spec fn integer_value_spec(value: Value) -> Option<U256> {
    match value {
        Value::U8(v) => Some(U256 { hi: 0, lo: v as u128 }),
        Value::U16(v) => Some(U256 { hi: 0, lo: v as u128 }),
        Value::U32(v) => Some(U256 { hi: 0, lo: v as u128 }),
        Value::U64(v) => Some(U256 { hi: 0, lo: v as u128 }),
        Value::U128(v) => Some(U256 { hi: 0, lo: v }),
        Value::U256(v) => Some(v),
        _ => None,
    }
}

/// The number that an integer literal stands for.
pub fn integer_value(value: &Value) -> (r: Option<U256>)
    ensures
        r == integer_value_spec(*value),
{
    match value {
        Value::U8(v) => Some(U256::from_u128(*v as u128)),
        Value::U16(v) => Some(U256::from_u128(*v as u128)),
        Value::U32(v) => Some(U256::from_u128(*v as u128)),
        Value::U64(v) => Some(U256::from_u128(*v as u128)),
        Value::U128(v) => Some(U256::from_u128(*v)),
        Value::U256(v) => Some(*v),
        _ => None,
    }
}

/// Whether the operator gives an integer from integers.
pub fn is_numeric_binop(op: BinOp) -> (r: bool)
    ensures
        r <==> op is Add || op is Sub || op is Mul || op is Div || op is Mod || op is BitOr
            || op is BitAnd || op is Xor || op is Shl || op is Shr,
{
    matches!(
        op,
        BinOp::Add
            | BinOp::Sub
            | BinOp::Mul
            | BinOp::Div
            | BinOp::Mod
            | BinOp::BitOr
            | BinOp::BitAnd
            | BinOp::Xor
            | BinOp::Shl
            | BinOp::Shr
    )
}

} // verus!
