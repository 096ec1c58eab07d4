//! The bits of a number.

use crate::domain::widths::lemma_pow2_widths;
use crate::u256::{full, half, lemma_u256_injective, lemma_u256_of, lemma_u256_view, U256};
use vstd::arithmetic::power2::pow2;
use vstd::prelude::*;

verus! {

/// Whether bit `i` of `n` is set.
pub open spec fn bit(n: nat, i: nat) -> bool {
    (n / pow2(i)) % 2 == 1
}

/// Bits of a 256-bit value are bits of its halves.
pub proof fn lemma_bit_halves(x: U256, i: nat)
    ensures
        i < 128 ==> bit(x@, i) == bit(x.lo as nat, i),
        i >= 128 ==> bit(x@, i) == bit(x.hi as nat, (i - 128) as nat),
        i >= 256 ==> !bit(x@, i),
{
    lemma_pow2_widths();
    vstd::arithmetic::power2::lemma_pow2_pos(i);
    let p = pow2(i);
    if i < 128 {
        let q = pow2((127 - i) as nat);
        vstd::arithmetic::power2::lemma_pow2_adds(i, (127 - i) as nat);
        vstd::arithmetic::power2::lemma_pow2_unfold(128);
        let h = x.hi as nat;
        assert(h * half() == p * (2 * (q * h))) by (nonlinear_arith)
            requires
                2 * (p * q) == half(),
        ;
        vstd::arithmetic::div_mod::lemma_hoist_over_denominator(
            x.lo as int,
            (2 * (q * h)) as int,
            p,
        );
        let low = x.lo as nat / p;
        assert(x@ / p == low + 2 * (q * h));
        vstd::arithmetic::div_mod::lemma_mod_multiples_vanish((q * h) as int, low as int, 2);
    } else {
        let j = (i - 128) as nat;
        vstd::arithmetic::power2::lemma_pow2_adds(128, j);
        vstd::arithmetic::power2::lemma_pow2_pos(j);
        vstd::arithmetic::div_mod::lemma_div_denominator(x@ as int, half() as int, pow2(j) as int);
        assert(x@ / half() == x.hi as nat);
    }
    if i >= 256 {
        lemma_u256_view(x);
        if i > 256 {
            vstd::arithmetic::power2::lemma_pow2_strictly_increases(256, i);
        }
        vstd::arithmetic::div_mod::lemma_basic_div(x@ as int, p as int);
    }
}

/// Bit `i` of a 128-bit value by shifting it to the end.
proof fn lemma_bit_shift(a: u128, i: u128)
    requires
        i < 128,
    ensures
        bit(a as nat, i as nat) == ((a >> i) & 1 == 1),
{
    vstd::bits::lemma_u128_shr_is_div(a, i);
    let s: u128 = a >> i;
    assert(s & 1 == s % 2) by (bit_vector);
}

proof fn lemma_bit_ops_128(a: u128, b: u128, i: nat)
    requires
        i < 128,
    ensures
        bit((a & b) as nat, i) == (bit(a as nat, i) && bit(b as nat, i)),
        bit((a | b) as nat, i) == (bit(a as nat, i) || bit(b as nat, i)),
        bit((a ^ b) as nat, i) == (bit(a as nat, i) != bit(b as nat, i)),
{
    let k: u128 = i as u128;
    lemma_bit_shift(a, k);
    lemma_bit_shift(b, k);
    lemma_bit_shift(a & b, k);
    lemma_bit_shift(a | b, k);
    lemma_bit_shift(a ^ b, k);
    assert((((a & b) >> k) & 1 == 1) == (((a >> k) & 1 == 1) && ((b >> k) & 1 == 1)))
        by (bit_vector)
        requires
            k < 128,
    ;
    assert((((a | b) >> k) & 1 == 1) == (((a >> k) & 1 == 1) || ((b >> k) & 1 == 1)))
        by (bit_vector)
        requires
            k < 128,
    ;
    assert((((a ^ b) >> k) & 1 == 1) == (((a >> k) & 1 == 1) != ((b >> k) & 1 == 1)))
        by (bit_vector)
        requires
            k < 128,
    ;
}

/// The bitwise operations work on each bit by itself.
pub proof fn lemma_bit_ops(a: U256, b: U256, i: nat)
    ensures
        bit(a.and_spec(b)@, i) == (bit(a@, i) && bit(b@, i)),
        bit(a.or_spec(b)@, i) == (bit(a@, i) || bit(b@, i)),
        bit(a.xor_spec(b)@, i) == (bit(a@, i) != bit(b@, i)),
{
    lemma_bit_halves(a, i);
    lemma_bit_halves(b, i);
    lemma_bit_halves(a.and_spec(b), i);
    lemma_bit_halves(a.or_spec(b), i);
    lemma_bit_halves(a.xor_spec(b), i);
    if i < 128 {
        lemma_bit_ops_128(a.lo, b.lo, i);
    } else if i < 256 {
        lemma_bit_ops_128(a.hi, b.hi, (i - 128) as nat);
    }
}

/// The bits of `2^n - 1` are the low `n`.
pub proof fn lemma_bit_ones(n: nat, i: nat)
    ensures
        bit((pow2(n) - 1) as nat, i) == (i < n),
{
    vstd::arithmetic::power2::lemma_pow2_pos(n);
    vstd::arithmetic::power2::lemma_pow2_pos(i);
    let p = pow2(i);
    if i < n {
        let q = pow2((n - i - 1) as nat);
        vstd::arithmetic::power2::lemma_pow2_adds(i, (n - i) as nat);
        vstd::arithmetic::power2::lemma_pow2_unfold((n - i) as nat);
        vstd::arithmetic::power2::lemma_pow2_pos((n - i - 1) as nat);
        assert(pow2(n) - 1 == p * (2 * q - 1) + (p - 1)) by (nonlinear_arith)
            requires
                pow2(n) == p * (2 * q),
        ;
        vstd::arithmetic::div_mod::lemma_fundamental_div_mod_converse(
            pow2(n) - 1,
            p as int,
            2 * q - 1,
            p - 1,
        );
        assert((2 * q - 1) % 2 == 1);
    } else {
        if i > n {
            vstd::arithmetic::power2::lemma_pow2_strictly_increases(n, i);
        }
        vstd::arithmetic::div_mod::lemma_basic_div(pow2(n) - 1, p as int);
    }
}

/// A value whose bits are among those of another is not larger.
pub proof fn lemma_bits_order(a: U256, b: U256)
    requires
        forall|i: nat| i < 256 && #[trigger] bit(a@, i) ==> bit(b@, i),
    ensures
        a@ <= b@,
{
    lemma_and_of_subset(a, b);
    let (ah, bh, al, bl) = (a.hi, b.hi, a.lo, b.lo);
    assert((ah & bh) <= bh) by (bit_vector);
    assert((al & bl) <= bl) by (bit_vector);
}

proof fn lemma_and_of_subset(a: U256, b: U256)
    requires
        forall|i: nat| i < 256 && #[trigger] bit(a@, i) ==> bit(b@, i),
    ensures
        a.and_spec(b) == a,
{
    let c = a.and_spec(b);
    assert forall|i: nat| i < 256 implies #[trigger] bit(c@, i) == bit(a@, i) by {
        lemma_bit_ops(a, b, i);
    }
    lemma_bits_determine(c, a);
}

/// Two values with the same bits are the same value.
pub proof fn lemma_bits_determine(a: U256, b: U256)
    requires
        forall|i: nat| i < 256 ==> #[trigger] bit(a@, i) == bit(b@, i),
    ensures
        a == b,
{
    lemma_u256_view(a);
    lemma_u256_view(b);
    lemma_pow2_widths();
    lemma_low_bits(a@, b@, 256);
    vstd::arithmetic::div_mod::lemma_small_mod(a@, full());
    vstd::arithmetic::div_mod::lemma_small_mod(b@, full());
    lemma_u256_injective(a, b);
}

/// Numbers that agree on the low `n` bits agree modulo `2^n`.
proof fn lemma_low_bits(a: nat, b: nat, n: nat)
    requires
        forall|i: nat| i < n ==> #[trigger] bit(a, i) == bit(b, i),
    ensures
        a % pow2(n) == b % pow2(n),
    decreases n,
{
    if n == 0 {
        lemma_pow2_widths();
    } else {
        let m = (n - 1) as nat;
        lemma_low_bits(a, b, m);
        assert(bit(a, m) == bit(b, m));
        lemma_top_bit(a, m);
        lemma_top_bit(b, m);
    }
}

/// The low `m + 1` bits are the low `m` bits and bit `m`.
pub proof fn lemma_top_bit(a: nat, m: nat)
    ensures
        a % pow2(m + 1) == (a % pow2(m)) + (if bit(a, m) {
            pow2(m)
        } else {
            0
        }),
{
    vstd::arithmetic::power2::lemma_pow2_pos(m);
    vstd::arithmetic::power2::lemma_pow2_unfold(m + 1);
    vstd::arithmetic::div_mod::lemma_mod_breakdown(a as int, pow2(m) as int, 2);
    let p = pow2(m);
    assert(2 * p == p * 2);
    let t = (a / p) % 2;
    assert(p * t == (if t == 1 {
        p
    } else {
        0
    })) by (nonlinear_arith)
        requires
            t == 0 || t == 1,
    ;
}

/// Shifting left moves every bit up; those that would pass bit 255 are lost.
pub proof fn lemma_bit_shl(x: U256, s: nat, i: nat)
    requires
        s < 256,
    ensures
        bit(x.shl_spec(s)@, i) == (s <= i < 256 && bit(x@, (i - s) as nat)),
{
    let y = x.shl_spec(s);
    let n = x@ * pow2(s);
    lemma_u256_of(n % full());
    lemma_bit_halves(y, i);
    if i < 256 {
        lemma_pow2_widths();
        lemma_bit_of_mod(n, 256, i);
        lemma_bit_scaled(x@, s, i);
    }
}

/// Bits below `n` are not changed by taking the remainder modulo `2^n`.
pub proof fn lemma_bit_of_mod(a: nat, n: nat, i: nat)
    requires
        i < n,
    ensures
        bit(a % pow2(n), i) == bit(a, i),
{
    let p = pow2(i);
    let q = pow2((n - i - 1) as nat);
    vstd::arithmetic::power2::lemma_pow2_pos(i);
    vstd::arithmetic::power2::lemma_pow2_pos(n);
    vstd::arithmetic::power2::lemma_pow2_adds(i, (n - i) as nat);
    vstd::arithmetic::power2::lemma_pow2_unfold((n - i) as nat);
    let r = a % pow2(n);
    let k = a / pow2(n);
    vstd::arithmetic::div_mod::lemma_fundamental_div_mod(a as int, pow2(n) as int);
    assert(pow2(n) * k == p * (2 * (q * k))) by (nonlinear_arith)
        requires
            pow2(n) == p * (2 * q),
    ;
    vstd::arithmetic::div_mod::lemma_hoist_over_denominator(r as int, (2 * (q * k)) as int, p);
    vstd::arithmetic::div_mod::lemma_mod_multiples_vanish((q * k) as int, (r / p) as int, 2);
}

proof fn lemma_bit_scaled(a: nat, s: nat, i: nat)
    ensures
        bit(a * pow2(s), i) == (s <= i && bit(a, (i - s) as nat)),
{
    vstd::arithmetic::power2::lemma_pow2_pos(s);
    vstd::arithmetic::power2::lemma_pow2_pos(i);
    if s <= i {
        let d = (i - s) as nat;
        vstd::arithmetic::power2::lemma_pow2_adds(s, d);
        vstd::arithmetic::power2::lemma_pow2_pos(d);
        vstd::arithmetic::div_mod::lemma_div_denominator(
            (a * pow2(s)) as int,
            pow2(s) as int,
            pow2(d) as int,
        );
        vstd::arithmetic::div_mod::lemma_div_by_multiple(a as int, pow2(s) as int);
    } else {
        let p = pow2(i);
        let q = pow2((s - i - 1) as nat);
        vstd::arithmetic::power2::lemma_pow2_adds(i, (s - i) as nat);
        vstd::arithmetic::power2::lemma_pow2_unfold((s - i) as nat);
        assert(a * pow2(s) == (2 * (q * a)) * p) by (nonlinear_arith)
            requires
                pow2(s) == p * (2 * q),
        ;
        vstd::arithmetic::div_mod::lemma_div_by_multiple((2 * (q * a)) as int, p as int);
    }
}

/// Shifting right moves every bit down.
pub proof fn lemma_bit_shr(x: U256, s: nat, i: nat)
    ensures
        bit(x.shr_spec(s)@, i) == bit(x@, i + s),
{
    vstd::arithmetic::power2::lemma_pow2_pos(s);
    vstd::arithmetic::power2::lemma_pow2_pos(i);
    vstd::arithmetic::power2::lemma_pow2_adds(s, i);
    lemma_u256_view(x);
    vstd::arithmetic::div_mod::lemma_div_is_ordered_by_denominator(x@ as int, 1, pow2(s) as int);
    assert(x@ / pow2(s) <= x@);
    lemma_u256_of(x@ / pow2(s));
    vstd::arithmetic::div_mod::lemma_div_denominator(x@ as int, pow2(s) as int, pow2(i) as int);
}

} // verus!
