//! Bits that are known to be zero or one.

use crate::domain::bits::{
    bit, lemma_bit_halves, lemma_bit_of_mod, lemma_bit_ones, lemma_bit_ops, lemma_bit_shl,
    lemma_bit_shr, lemma_bits_determine, lemma_bits_order,
};
use crate::domain::widths::{
    is_width, lemma_pow2_fits, low_mask, low_mask_spec, uint_max_is_all_ones, uint_max_spec,
    width_mask,
};
use crate::u256::{lemma_u256_injective, lemma_u256_of, u256_of, U256};
use vstd::arithmetic::power2::pow2;
use vstd::prelude::*;

verus! {

#[derive(Clone, Copy, Debug, PartialEq, Eq, Structural)]
pub struct BitFacts {
    pub width: u16,
    pub known_zero: U256,
    pub known_one: U256,
}

/// All bits but those of `x`.
pub open spec fn complement(x: U256) -> U256 {
    U256::max_value_spec().xor_spec(x)
}

fn complement_of(x: U256) -> (r: U256)
    ensures
        r == complement(x),
{
    U256::max_value().bitxor(x)
}

impl BitFacts {
    /// The values that have the known bits.
    pub open spec fn admits(self, x: U256) -> bool {
        forall|i: nat|
            #![trigger bit(x@, i)]
            i < 256 ==> (bit(self.known_zero@, i) ==> !bit(x@, i)) && (bit(self.known_one@, i)
                ==> bit(x@, i))
    }

    pub open spec fn mask_spec(self) -> U256 {
        uint_max_spec(self.width)
    }

    pub open spec fn unknown_spec(width: u16) -> BitFacts {
        BitFacts {
            width,
            known_zero: complement(uint_max_spec(width)),
            known_one: U256::zero_spec(),
        }
    }

    pub open spec fn exact_spec(width: u16, value: U256) -> BitFacts {
        let v = value.and_spec(uint_max_spec(width));
        BitFacts { width, known_zero: complement(v), known_one: v }
    }

    pub open spec fn join_spec(self, other: BitFacts) -> BitFacts {
        let width = if self.width >= other.width {
            self.width
        } else {
            other.width
        };
        let mask = uint_max_spec(width);
        BitFacts {
            width,
            known_zero: self.known_zero.and_spec(other.known_zero).or_spec(complement(mask)),
            known_one: self.known_one.and_spec(other.known_one).and_spec(mask),
        }
    }

    pub open spec fn min_value_spec(self) -> U256 {
        self.known_one.and_spec(self.mask_spec())
    }

    pub open spec fn max_value_spec(self) -> U256 {
        self.mask_spec().and_spec(complement(self.known_zero))
    }

    pub open spec fn exact_value_spec(self) -> Option<U256> {
        let mask = self.mask_spec();
        if self.known_zero.or_spec(self.known_one).and_spec(mask) == mask {
            Some(self.known_one.and_spec(mask))
        } else {
            None
        }
    }

    /// Whether some bit of `mask` is not known to be zero.
    pub open spec fn may_have_bits(self, mask: U256) -> bool {
        complement(self.known_zero).and_spec(mask) != U256::zero_spec()
    }

    pub open spec fn shift_left_spec(self, shift: u8, width: u16) -> BitFacts {
        let mask = uint_max_spec(width);
        BitFacts {
            width,
            known_zero: self.known_zero.shl_spec(shift as nat).or_spec(
                low_mask_spec(shift),
            ).or_spec(complement(mask)),
            known_one: self.known_one.shl_spec(shift as nat).and_spec(mask),
        }
    }

    pub open spec fn shift_right_spec(self, shift: u8, width: u16) -> BitFacts {
        let mask = uint_max_spec(width);
        BitFacts {
            width,
            known_zero: self.known_zero.shr_spec(shift as nat).or_spec(complement(mask)),
            known_one: self.known_one.shr_spec(shift as nat).and_spec(mask),
        }
    }

    pub open spec fn bitand_spec(self, other: BitFacts, width: u16) -> BitFacts {
        let mask = uint_max_spec(width);
        BitFacts {
            width,
            known_zero: self.known_zero.or_spec(other.known_zero).or_spec(complement(mask)),
            known_one: self.known_one.and_spec(other.known_one).and_spec(mask),
        }
    }

    pub open spec fn bitor_spec(self, other: BitFacts, width: u16) -> BitFacts {
        let mask = uint_max_spec(width);
        BitFacts {
            width,
            known_zero: self.known_zero.and_spec(other.known_zero).or_spec(complement(mask)),
            known_one: self.known_one.or_spec(other.known_one).and_spec(mask),
        }
    }

    pub open spec fn bitxor_spec(self, other: BitFacts, width: u16) -> BitFacts {
        let mask = uint_max_spec(width);
        BitFacts {
            width,
            known_zero: self.known_zero.and_spec(other.known_zero).or_spec(
                self.known_one.and_spec(other.known_one),
            ).or_spec(complement(mask)),
            known_one: self.known_one.and_spec(other.known_zero).or_spec(
                self.known_zero.and_spec(other.known_one),
            ).and_spec(mask),
        }
    }

    /// What a cast to `width` bits leaves known.
    pub open spec fn narrowed(self, width: u16) -> BitFacts {
        let mask = uint_max_spec(width);
        BitFacts {
            width,
            known_zero: self.known_zero.or_spec(complement(mask)),
            known_one: self.known_one.and_spec(mask),
        }
    }

    pub fn unknown(width: u16) -> (r: Self)
        ensures
            r == Self::unknown_spec(width),
    {
        BitFacts { width, known_zero: complement_of(width_mask(width)), known_one: U256::zero() }
    }

    pub fn exact(width: u16, value: U256) -> (r: Self)
        ensures
            r == Self::exact_spec(width, value),
    {
        let value: U256 = value.bitand(width_mask(width));
        BitFacts { width, known_zero: complement_of(value), known_one: value }
    }

    pub fn mask(&self) -> (r: U256)
        ensures
            r == self.mask_spec(),
    {
        width_mask(self.width)
    }

    pub fn join(&self, other: &Self) -> (r: Self)
        ensures
            r == self.join_spec(*other),
    {
        let width: u16 = if self.width >= other.width {
            self.width
        } else {
            other.width
        };
        let mask: U256 = width_mask(width);
        BitFacts {
            width,
            known_zero: self.known_zero.bitand(other.known_zero).bitor(complement_of(mask)),
            known_one: self.known_one.bitand(other.known_one).bitand(mask),
        }
    }

    pub fn min_value(&self) -> (r: U256)
        ensures
            r == self.min_value_spec(),
    {
        self.known_one.bitand(self.mask())
    }

    pub fn max_value(&self) -> (r: U256)
        ensures
            r == self.max_value_spec(),
    {
        self.mask().bitand(complement_of(self.known_zero))
    }

    pub fn exact_value(&self) -> (r: Option<U256>)
        ensures
            r == self.exact_value_spec(),
    {
        let mask: U256 = self.mask();
        if self.known_zero.bitor(self.known_one).bitand(mask) == mask {
            Some(self.known_one.bitand(mask))
        } else {
            None
        }
    }

    pub fn discarded_bits_may_be_non_zero(&self, discarded_mask: U256) -> (r: bool)
        ensures
            r == self.may_have_bits(discarded_mask),
    {
        complement_of(self.known_zero).bitand(discarded_mask) != U256::zero()
    }

    pub fn shift_left(&self, shift: u8, width: u16) -> (r: Self)
        ensures
            r == self.shift_left_spec(shift, width),
    {
        let mask: U256 = width_mask(width);
        BitFacts {
            width,
            known_zero: self.known_zero.shl(shift).bitor(low_mask(shift)).bitor(
                complement_of(mask),
            ),
            known_one: self.known_one.shl(shift).bitand(mask),
        }
    }

    pub fn shift_right(&self, shift: u8, width: u16) -> (r: Self)
        ensures
            r == self.shift_right_spec(shift, width),
    {
        let mask: U256 = width_mask(width);
        BitFacts {
            width,
            known_zero: self.known_zero.shr(shift).bitor(complement_of(mask)),
            known_one: self.known_one.shr(shift).bitand(mask),
        }
    }

    pub fn bitand(&self, other: &Self, width: u16) -> (r: Self)
        ensures
            r == self.bitand_spec(*other, width),
    {
        let mask: U256 = width_mask(width);
        BitFacts {
            width,
            known_zero: self.known_zero.bitor(other.known_zero).bitor(complement_of(mask)),
            known_one: self.known_one.bitand(other.known_one).bitand(mask),
        }
    }

    pub fn bitor(&self, other: &Self, width: u16) -> (r: Self)
        ensures
            r == self.bitor_spec(*other, width),
    {
        let mask: U256 = width_mask(width);
        BitFacts {
            width,
            known_zero: self.known_zero.bitand(other.known_zero).bitor(complement_of(mask)),
            known_one: self.known_one.bitor(other.known_one).bitand(mask),
        }
    }

    pub fn bitxor(&self, other: &Self, width: u16) -> (r: Self)
        ensures
            r == self.bitxor_spec(*other, width),
    {
        let mask: U256 = width_mask(width);
        BitFacts {
            width,
            known_zero: self.known_zero.bitand(other.known_zero).bitor(
                self.known_one.bitand(other.known_one),
            ).bitor(complement_of(mask)),
            known_one: self.known_one.bitand(other.known_zero).bitor(
                self.known_zero.bitand(other.known_one),
            ).bitand(mask),
        }
    }

    /// The facts after a cast to `width` bits.
    pub fn narrow(&self, width: u16) -> (r: Self)
        ensures
            r == self.narrowed(width),
    {
        let mask: U256 = width_mask(width);
        BitFacts {
            width,
            known_zero: self.known_zero.bitor(complement_of(mask)),
            known_one: self.known_one.bitand(mask),
        }
    }
}

/// The bits of a mask of a type are those below its width.
pub proof fn lemma_bit_mask(width: u16, i: nat)
    requires
        is_width(width),
    ensures
        bit(uint_max_spec(width)@, i) == (i < width),
{
    uint_max_is_all_ones(width);
    lemma_bit_ones(width as nat, i);
}

/// The complement has exactly the other bits.
pub proof fn lemma_bit_complement(x: U256, i: nat)
    ensures
        bit(complement(x)@, i) == (i < 256 && !bit(x@, i)),
{
    lemma_bit_halves(x, i);
    lemma_bit_halves(complement(x), i);
    lemma_bit_mask(256, i);
    lemma_bit_ops(U256::max_value_spec(), x, i);
}

/// A value fits a width exactly when it has no bit from the width on.
pub proof fn lemma_fits_by_bits(x: U256, width: u16)
    requires
        is_width(width),
    ensures
        x@ <= uint_max_spec(width)@ <==> (forall|i: nat|
            i < 256 && #[trigger] bit(x@, i) ==> i < width),
{
    let mask = uint_max_spec(width);
    if forall|i: nat| i < 256 && #[trigger] bit(x@, i) ==> i < width {
        assert forall|i: nat| i < 256 && #[trigger] bit(x@, i) implies bit(mask@, i) by {
            lemma_bit_mask(width, i);
        }
        lemma_bits_order(x, mask);
    }
    if x@ <= mask@ {
        uint_max_is_all_ones(width);
        assert forall|i: nat| i < 256 && #[trigger] bit(x@, i) implies i < width by {
            if i >= width {
                if i > width {
                    vstd::arithmetic::power2::lemma_pow2_strictly_increases(width as nat, i);
                }
                vstd::arithmetic::div_mod::lemma_basic_div(x@ as int, pow2(i) as int);
            }
        }
    }
}

/// Nothing but the width is known of an arbitrary value: it admits exactly the values that fit.
pub proof fn unknown_admits_what_fits(width: u16, x: U256)
    requires
        is_width(width),
    ensures
        BitFacts::unknown_spec(width).admits(x) <==> x@ <= uint_max_spec(width)@,
{
    lemma_fits_by_bits(x, width);
    assert forall|i: nat| #![trigger bit(x@, i)] i < 256 implies bit(
        complement(uint_max_spec(width))@,
        i,
    ) == !(i < width) && !bit(U256::zero_spec()@, i) by {
        lemma_bit_complement(uint_max_spec(width), i);
        lemma_bit_mask(width, i);
        vstd::arithmetic::power2::lemma_pow2_pos(i);
        vstd::arithmetic::div_mod::lemma_basic_div(0, pow2(i) as int);
    }
}

/// Exact facts admit one value: the given one, cut to the width.
pub proof fn exact_admits_one_value(width: u16, value: U256, x: U256)
    ensures
        BitFacts::exact_spec(width, value).admits(x) <==> x == value.and_spec(uint_max_spec(width)),
{
    let v = value.and_spec(uint_max_spec(width));
    let facts = BitFacts::exact_spec(width, value);
    assert forall|i: nat| i < 256 implies #[trigger] bit(complement(v)@, i) == !bit(v@, i) by {
        lemma_bit_complement(v, i);
    }
    if facts.admits(x) {
        assert forall|i: nat| i < 256 implies #[trigger] bit(x@, i) == bit(v@, i) by {
            assert(bit(complement(v)@, i) == !bit(v@, i));
        }
        lemma_bits_determine(x, v);
    }
    if x == v {
        assert forall|i: nat| #![trigger bit(x@, i)]
            i < 256 && bit(complement(v)@, i) implies !bit(x@, i) by {
            lemma_bit_complement(v, i);
        }
    }
}

/// Joined facts admit every value of the wider width that either side admits.
pub proof fn joined_facts_admit_both(a: BitFacts, b: BitFacts, x: U256)
    requires
        is_width(a.width),
        is_width(b.width),
        a.admits(x) || b.admits(x),
        x@ <= uint_max_spec(a.join_spec(b).width)@,
    ensures
        a.join_spec(b).admits(x),
{
    let j = a.join_spec(b);
    let mask = uint_max_spec(j.width);
    lemma_fits_by_bits(x, j.width);
    assert forall|i: nat| #![trigger bit(x@, i)] i < 256 implies (bit(j.known_zero@, i) ==> !bit(
        x@,
        i,
    )) && (bit(j.known_one@, i) ==> bit(x@, i)) by {
        lemma_bit_ops(a.known_zero, b.known_zero, i);
        lemma_bit_ops(a.known_zero.and_spec(b.known_zero), complement(mask), i);
        lemma_bit_complement(mask, i);
        lemma_bit_mask(j.width, i);
        lemma_bit_ops(a.known_one, b.known_one, i);
        lemma_bit_ops(a.known_one.and_spec(b.known_one), mask, i);
    }
}

/// An admitted value that fits the width lies between the smallest and the largest value.
pub proof fn admitted_values_are_bounded(facts: BitFacts, x: U256)
    requires
        is_width(facts.width),
        facts.admits(x),
        x@ <= uint_max_spec(facts.width)@,
    ensures
        facts.min_value_spec()@ <= x@ <= facts.max_value_spec()@,
{
    let mask = facts.mask_spec();
    lemma_fits_by_bits(x, facts.width);
    let lo = facts.min_value_spec();
    let hi = facts.max_value_spec();
    assert forall|i: nat| i < 256 && #[trigger] bit(lo@, i) implies bit(x@, i) by {
        lemma_bit_ops(facts.known_one, mask, i);
    }
    lemma_bits_order(lo, x);
    assert forall|i: nat| i < 256 && #[trigger] bit(x@, i) implies bit(hi@, i) by {
        lemma_bit_complement(facts.known_zero, i);
        lemma_bit_ops(mask, complement(facts.known_zero), i);
        lemma_bit_mask(facts.width, i);
    }
    lemma_bits_order(x, hi);
}

/// Where facts give an exact value, no other value of the width is admitted.
pub proof fn exact_value_is_the_only_one(facts: BitFacts, x: U256)
    requires
        is_width(facts.width),
        facts.admits(x),
        x@ <= uint_max_spec(facts.width)@,
        facts.exact_value_spec() is Some,
    ensures
        facts.exact_value_spec() == Some(x),
{
    let mask = facts.mask_spec();
    let v = facts.known_one.and_spec(mask);
    let known = facts.known_zero.or_spec(facts.known_one);
    lemma_fits_by_bits(x, facts.width);
    assert forall|i: nat| i < 256 implies #[trigger] bit(x@, i) == bit(v@, i) by {
        lemma_bit_ops(facts.known_zero, facts.known_one, i);
        lemma_bit_ops(known, mask, i);
        lemma_bit_ops(facts.known_one, mask, i);
        lemma_bit_mask(facts.width, i);
    }
    lemma_bits_determine(x, v);
}

/// Where the bits of a mask are all known to be zero, no admitted value has one of them.
pub proof fn discarded_bits_are_zero(facts: BitFacts, mask: U256, x: U256)
    requires
        facts.admits(x),
        !facts.may_have_bits(mask),
    ensures
        x.and_spec(mask) == U256::zero_spec(),
{
    let rest = complement(facts.known_zero);
    assert forall|i: nat| i < 256 implies #[trigger] bit(x.and_spec(mask)@, i) == bit(
        U256::zero_spec()@,
        i,
    ) by {
        lemma_bit_ops(x, mask, i);
        lemma_bit_ops(rest, mask, i);
        lemma_bit_complement(facts.known_zero, i);
        vstd::arithmetic::power2::lemma_pow2_pos(i);
        vstd::arithmetic::div_mod::lemma_basic_div(0, pow2(i) as int);
    }
    lemma_bits_determine(x.and_spec(mask), U256::zero_spec());
}

/// The facts of a bitwise operation admit its result on admitted operands, cut to the width.
pub proof fn bitwise_facts_admit_results(a: BitFacts, b: BitFacts, width: u16, x: U256, y: U256)
    requires
        is_width(width),
        a.admits(x),
        b.admits(y),
    ensures
        a.bitand_spec(b, width).admits(x.and_spec(y).and_spec(uint_max_spec(width))),
        a.bitor_spec(b, width).admits(x.or_spec(y).and_spec(uint_max_spec(width))),
        a.bitxor_spec(b, width).admits(x.xor_spec(y).and_spec(uint_max_spec(width))),
{
    let mask = uint_max_spec(width);
    let outside = complement(mask);
    let (az, ao, bz, bo) = (a.known_zero, a.known_one, b.known_zero, b.known_one);
    let f_and = a.bitand_spec(b, width);
    let r_and = x.and_spec(y).and_spec(mask);
    assert forall|i: nat| #![trigger bit(r_and@, i)] i < 256 implies (bit(f_and.known_zero@, i)
        ==> !bit(r_and@, i)) && (bit(f_and.known_one@, i) ==> bit(r_and@, i)) by {
        assert(bit(x@, i) || !bit(x@, i));
        assert(bit(y@, i) || !bit(y@, i));
        lemma_bit_ops(x, y, i);
        lemma_bit_ops(x.and_spec(y), mask, i);
        lemma_bit_ops(az, bz, i);
        lemma_bit_ops(az.or_spec(bz), outside, i);
        lemma_bit_complement(mask, i);
        lemma_bit_ops(ao, bo, i);
        lemma_bit_ops(ao.and_spec(bo), mask, i);
    }
    let f_or = a.bitor_spec(b, width);
    let r_or = x.or_spec(y).and_spec(mask);
    assert forall|i: nat| #![trigger bit(r_or@, i)] i < 256 implies (bit(f_or.known_zero@, i)
        ==> !bit(r_or@, i)) && (bit(f_or.known_one@, i) ==> bit(r_or@, i)) by {
        assert(bit(x@, i) || !bit(x@, i));
        assert(bit(y@, i) || !bit(y@, i));
        lemma_bit_ops(x, y, i);
        lemma_bit_ops(x.or_spec(y), mask, i);
        lemma_bit_ops(az, bz, i);
        lemma_bit_ops(az.and_spec(bz), outside, i);
        lemma_bit_complement(mask, i);
        lemma_bit_ops(ao, bo, i);
        lemma_bit_ops(ao.or_spec(bo), mask, i);
    }
    let f_xor = a.bitxor_spec(b, width);
    let r_xor = x.xor_spec(y).and_spec(mask);
    assert forall|i: nat| #![trigger bit(r_xor@, i)] i < 256 implies (bit(f_xor.known_zero@, i)
        ==> !bit(r_xor@, i)) && (bit(f_xor.known_one@, i) ==> bit(r_xor@, i)) by {
        assert(bit(x@, i) || !bit(x@, i));
        assert(bit(y@, i) || !bit(y@, i));
        lemma_bit_ops(x, y, i);
        lemma_bit_ops(x.xor_spec(y), mask, i);
        lemma_bit_ops(az, bz, i);
        lemma_bit_ops(ao, bo, i);
        lemma_bit_ops(az.and_spec(bz), ao.and_spec(bo), i);
        lemma_bit_ops(az.and_spec(bz).or_spec(ao.and_spec(bo)), outside, i);
        lemma_bit_complement(mask, i);
        lemma_bit_ops(ao, bz, i);
        lemma_bit_ops(az, bo, i);
        lemma_bit_ops(ao.and_spec(bz), az.and_spec(bo), i);
        lemma_bit_ops(ao.and_spec(bz).or_spec(az.and_spec(bo)), mask, i);
    }
}

/// The facts of a shift admit its result on an admitted operand, cut to the width.
pub proof fn shifted_facts_admit_results(a: BitFacts, shift: u8, width: u16, x: U256)
    requires
        is_width(width),
        a.admits(x),
    ensures
        a.shift_left_spec(shift, width).admits(
            x.shl_spec(shift as nat).and_spec(uint_max_spec(width)),
        ),
        a.shift_right_spec(shift, width).admits(
            x.shr_spec(shift as nat).and_spec(uint_max_spec(width)),
        ),
{
    let s = shift as nat;
    let mask = uint_max_spec(width);
    let outside = complement(mask);
    let f_l = a.shift_left_spec(shift, width);
    let r_l = x.shl_spec(s).and_spec(mask);
    assert forall|i: nat| #![trigger bit(r_l@, i)] i < 256 implies (bit(f_l.known_zero@, i)
        ==> !bit(r_l@, i)) && (bit(f_l.known_one@, i) ==> bit(r_l@, i)) by {
        lemma_bit_ops(x.shl_spec(s), mask, i);
        lemma_bit_shl(x, s, i);
        lemma_bit_shl(a.known_zero, s, i);
        lemma_bit_shl(a.known_one, s, i);
        lemma_bit_ops(a.known_zero.shl_spec(s), low_mask_spec(shift), i);
        lemma_bit_ops(
            a.known_zero.shl_spec(s).or_spec(low_mask_spec(shift)),
            outside,
            i,
        );
        lemma_bit_complement(mask, i);
        lemma_bit_ops(a.known_one.shl_spec(s), mask, i);
        lemma_pow2_fits(s);
        lemma_u256_of((pow2(s) - 1) as nat);
        lemma_bit_ones(s, i);
        if s <= i {
            assert(bit(x@, (i - s) as nat) || !bit(x@, (i - s) as nat));
        }
    }
    let f_r = a.shift_right_spec(shift, width);
    let r_r = x.shr_spec(s).and_spec(mask);
    assert forall|i: nat| #![trigger bit(r_r@, i)] i < 256 implies (bit(f_r.known_zero@, i)
        ==> !bit(r_r@, i)) && (bit(f_r.known_one@, i) ==> bit(r_r@, i)) by {
        lemma_bit_ops(x.shr_spec(s), mask, i);
        lemma_bit_shr(x, s, i);
        lemma_bit_shr(a.known_zero, s, i);
        lemma_bit_shr(a.known_one, s, i);
        lemma_bit_ops(a.known_zero.shr_spec(s), outside, i);
        lemma_bit_complement(mask, i);
        lemma_bit_ops(a.known_one.shr_spec(s), mask, i);
        lemma_bit_halves(x, i + s);
        lemma_bit_halves(a.known_zero, i + s);
        lemma_bit_halves(a.known_one, i + s);
        assert(bit(x@, i + s) || !bit(x@, i + s));
    }
}

/// Cutting to a width does not change a value that fits it.
pub proof fn mask_keeps_what_fits(x: U256, width: u16)
    requires
        is_width(width),
        x@ <= uint_max_spec(width)@,
    ensures
        x.and_spec(uint_max_spec(width)) == x,
{
    lemma_fits_by_bits(x, width);
    let y = x.and_spec(uint_max_spec(width));
    assert forall|i: nat| i < 256 implies #[trigger] bit(y@, i) == bit(x@, i) by {
        lemma_bit_ops(x, uint_max_spec(width), i);
        lemma_bit_mask(width, i);
    }
    lemma_bits_determine(y, x);
}

/// The low `shift` bits of a value are its remainder modulo `2^shift`.
pub proof fn low_bits_are_a_remainder(x: U256, shift: u8)
    ensures
        x.and_spec(low_mask_spec(shift))@ == x@ % pow2(shift as nat),
        x.and_spec(low_mask_spec(shift)) == U256::zero_spec() <==> x@ % pow2(shift as nat) == 0,
{
    let s = shift as nat;
    lemma_pow2_fits(s);
    lemma_u256_of((pow2(s) - 1) as nat);
    vstd::arithmetic::div_mod::lemma_mod_bound(x@ as int, pow2(s) as int);
    let r = u256_of(x@ % pow2(s));
    lemma_u256_of(x@ % pow2(s));
    let y = x.and_spec(low_mask_spec(shift));
    assert forall|i: nat| i < 256 implies #[trigger] bit(y@, i) == bit(r@, i) by {
        lemma_bit_ops(x, low_mask_spec(shift), i);
        lemma_bit_ones(s, i);
        if i < s {
            lemma_bit_of_mod(x@, s, i);
        } else {
            if i > s {
                vstd::arithmetic::power2::lemma_pow2_strictly_increases(s, i);
            }
            vstd::arithmetic::div_mod::lemma_basic_div(r@ as int, pow2(i) as int);
        }
    }
    lemma_bits_determine(y, r);
    if y@ == 0 {
        lemma_u256_injective(y, U256::zero_spec());
    }
}

} // verus!
