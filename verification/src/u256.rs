//! 256-bit unsigned integers, held as two 128-bit halves.

use vstd::arithmetic::power2::pow2;
use vstd::prelude::*;

verus! {

/// `2^128`, the weight of the high half.
#[verifier::inline]
pub open spec fn half() -> nat {
    0x1_0000_0000_0000_0000_0000_0000_0000_0000nat
}

/// `2^256`, one more than the largest value.
#[verifier::inline]
pub open spec fn full() -> nat {
    0x1_0000_0000_0000_0000_0000_0000_0000_0000_0000_0000_0000_0000_0000_0000_0000_0000nat
}

/// An unsigned 256-bit integer; its view is the number that it stands for.
#[derive(Clone, Copy, Debug, PartialEq, Eq, Structural)]
pub struct U256 {
    pub hi: u128,
    pub lo: u128,
}

impl View for U256 {
    type V = nat;

    open spec fn view(&self) -> nat {
        self.hi as nat * half() + self.lo as nat
    }
}

/// The 256-bit integer that stands for `n`, where `n` is below `2^256`.
pub open spec fn u256_of(n: nat) -> U256 {
    U256 { hi: (n / half()) as u128, lo: (n % half()) as u128 }
}

/// Every value is below `2^256`, and is determined by the number that it stands for.
pub proof fn lemma_u256_view(x: U256)
    ensures
        x@ < full(),
        u256_of(x@) == x,
{
    assert(x.hi as nat * half() + x.lo as nat == x@);
    assert(x@ / half() == x.hi as nat && x@ % half() == x.lo as nat);
}

/// A number below `2^256` is the view of the integer made from it.
pub proof fn lemma_u256_of(n: nat)
    requires
        n < full(),
    ensures
        u256_of(n)@ == n,
{
    assert(n / half() < half());
}

/// Two values that stand for the same number are the same value.
pub proof fn lemma_u256_injective(a: U256, b: U256)
    requires
        a@ == b@,
    ensures
        a == b,
{
    lemma_u256_view(a);
    lemma_u256_view(b);
}

impl U256 {
    /// `self + other`, where the sum is below `2^256`.
    pub open spec fn add_spec(self, other: U256) -> Option<U256> {
        if self@ + other@ < full() {
            Some(u256_of(self@ + other@))
        } else {
            None
        }
    }

    /// `self - other`, where it is not negative.
    pub open spec fn sub_spec(self, other: U256) -> Option<U256> {
        if self@ >= other@ {
            Some(u256_of((self@ - other@) as nat))
        } else {
            None
        }
    }

    /// `self * other`, where the product is below `2^256`.
    pub open spec fn mul_spec(self, other: U256) -> Option<U256> {
        if self@ * other@ < full() {
            Some(u256_of(self@ * other@))
        } else {
            None
        }
    }

    /// The quotient, where the divisor is not zero.
    pub open spec fn div_spec(self, other: U256) -> Option<U256> {
        if other@ != 0 {
            Some(u256_of(self@ / other@))
        } else {
            None
        }
    }

    /// The remainder, where the divisor is not zero.
    pub open spec fn rem_spec(self, other: U256) -> Option<U256> {
        if other@ != 0 {
            Some(u256_of(self@ % other@))
        } else {
            None
        }
    }

    /// `self * 2^n`, without the bits from `2^256` on.
    pub open spec fn shl_spec(self, n: nat) -> U256 {
        u256_of((self@ * pow2(n)) % full())
    }

    /// `self / 2^n`, rounded down.
    pub open spec fn shr_spec(self, n: nat) -> U256 {
        u256_of(self@ / pow2(n))
    }

    /// Bitwise and.
    pub open spec fn and_spec(self, other: U256) -> U256 {
        U256 { hi: self.hi & other.hi, lo: self.lo & other.lo }
    }

    /// Bitwise or.
    pub open spec fn or_spec(self, other: U256) -> U256 {
        U256 { hi: self.hi | other.hi, lo: self.lo | other.lo }
    }

    /// Bitwise exclusive or.
    pub open spec fn xor_spec(self, other: U256) -> U256 {
        U256 { hi: self.hi ^ other.hi, lo: self.lo ^ other.lo }
    }

    /// The smaller of two values.
    pub open spec fn min_spec(self, other: U256) -> U256 {
        if other@ < self@ {
            other
        } else {
            self
        }
    }

    /// The larger of two values.
    pub open spec fn max_spec(self, other: U256) -> U256 {
        if self@ < other@ {
            other
        } else {
            self
        }
    }

    pub open spec fn zero_spec() -> U256 {
        U256 { hi: 0, lo: 0 }
    }

    pub open spec fn one_spec() -> U256 {
        U256 { hi: 0, lo: 1 }
    }

    pub open spec fn max_value_spec() -> U256 {
        U256 { hi: u128::MAX, lo: u128::MAX }
    }

    #[verifier::when_used_as_spec(zero_spec)]
    pub fn zero() -> (r: U256)
        ensures
            r == Self::zero_spec(),
            r@ == 0,
    {
        U256 { hi: 0, lo: 0 }
    }

    #[verifier::when_used_as_spec(one_spec)]
    pub fn one() -> (r: U256)
        ensures
            r == Self::one_spec(),
            r@ == 1,
    {
        U256 { hi: 0, lo: 1 }
    }

    #[verifier::when_used_as_spec(max_value_spec)]
    pub fn max_value() -> (r: U256)
        ensures
            r == Self::max_value_spec(),
            r@ == full() - 1,
    {
        U256 { hi: u128::MAX, lo: u128::MAX }
    }

    pub fn from_u128(n: u128) -> (r: U256)
        ensures
            r == (U256 { hi: 0, lo: n }),
            r@ == n,
    {
        U256 { hi: 0, lo: n }
    }

    pub fn lt(self, other: U256) -> (r: bool)
        ensures
            r == (self@ < other@),
    {
        self.hi < other.hi || (self.hi == other.hi && self.lo < other.lo)
    }

    pub fn le(self, other: U256) -> (r: bool)
        ensures
            r == (self@ <= other@),
    {
        !other.lt(self)
    }

    pub fn min(self, other: U256) -> (r: U256)
        ensures
            r == self.min_spec(other),
    {
        if other.lt(self) {
            other
        } else {
            self
        }
    }

    pub fn max(self, other: U256) -> (r: U256)
        ensures
            r == self.max_spec(other),
    {
        if self.lt(other) {
            other
        } else {
            self
        }
    }

    pub fn checked_add(self, other: U256) -> (r: Option<U256>)
        ensures
            r == self.add_spec(other),
    {
        let lo: u128 = self.lo.wrapping_add(other.lo);
        let carry: u128 = if lo < self.lo {
            1
        } else {
            0
        };
        assert(lo + carry * half() == self.lo + other.lo);
        let sum: Option<u128> = self.hi.checked_add(other.hi);
        let hi: u128 = match sum {
            Some(h) => h,
            None => return None,
        };
        if carry == 1 && hi == u128::MAX {
            return None;
        }
        let r: U256 = U256 { hi: hi + carry, lo };
        proof {
            lemma_u256_view(r);
        }
        Some(r)
    }

    pub fn checked_sub(self, other: U256) -> (r: Option<U256>)
        ensures
            r == self.sub_spec(other),
    {
        if self.lt(other) {
            return None;
        }
        let r: U256 = if self.lo >= other.lo {
            U256 { hi: self.hi - other.hi, lo: self.lo - other.lo }
        } else {
            U256 { hi: self.hi - other.hi - 1, lo: self.lo.wrapping_sub(other.lo) }
        };
        proof {
            lemma_u256_view(r);
            assert(r@ == self@ - other@);
        }
        Some(r)
    }

    pub fn bitand(self, other: U256) -> (r: U256)
        ensures
            r == self.and_spec(other),
    {
        U256 { hi: self.hi & other.hi, lo: self.lo & other.lo }
    }

    pub fn bitor(self, other: U256) -> (r: U256)
        ensures
            r == self.or_spec(other),
    {
        U256 { hi: self.hi | other.hi, lo: self.lo | other.lo }
    }

    pub fn bitxor(self, other: U256) -> (r: U256)
        ensures
            r == self.xor_spec(other),
    {
        U256 { hi: self.hi ^ other.hi, lo: self.lo ^ other.lo }
    }

    /// Half of the value, rounded down.
    fn halve(self) -> (r: U256)
        ensures
            r@ == self@ / 2,
    {
        let carry: u128 = if self.hi % 2 == 1 {
            0x8000_0000_0000_0000_0000_0000_0000_0000
        } else {
            0
        };
        U256 { hi: self.hi / 2, lo: self.lo / 2 + carry }
    }

    /// Twice the value, without the bit of weight `2^256`.
    fn double(self) -> (r: U256)
        ensures
            r@ == (self@ * 2) % full(),
    {
        let top: u128 = 0x8000_0000_0000_0000_0000_0000_0000_0000;
        let lo: u128 = if self.lo >= top {
            (self.lo - top) * 2
        } else {
            self.lo * 2
        };
        let carry: u128 = if self.lo >= top {
            1
        } else {
            0
        };
        let hi: u128 = if self.hi >= top {
            (self.hi - top) * 2 + carry
        } else {
            self.hi * 2 + carry
        };
        U256 { hi, lo }
    }

    fn is_odd(self) -> (r: bool)
        ensures
            r == (self@ % 2 == 1),
    {
        self.lo % 2 == 1
    }

    pub fn checked_mul(self, other: U256) -> (r: Option<U256>)
        ensures
            r == self.mul_spec(other),
        decreases other@,
    {
        if other == U256::zero() {
            proof {
                lemma_u256_view(U256::zero());
            }
            return Some(U256::zero());
        }
        let half_other: U256 = other.halve();
        proof {
            lemma_mul_halves(self@, other@);
            assert(other@ > 0);
        }
        let part: U256 = match self.checked_mul(half_other) {
            Some(p) => p,
            None => return None,
        };
        proof {
            lemma_u256_of(self@ * half_other@);
        }
        let twice: U256 = match part.checked_add(part) {
            Some(t) => t,
            None => return None,
        };
        proof {
            lemma_u256_of(part@ + part@);
        }
        if other.is_odd() {
            twice.checked_add(self)
        } else {
            Some(twice)
        }
    }

    /// Quotient and remainder by a divisor that is not zero.
    fn div_rem(self, other: U256) -> (r: (U256, U256))
        requires
            other@ > 0,
        ensures
            r.0@ == self@ / other@,
            r.1@ == self@ % other@,
        decreases self@ - other@,
    {
        if self.lt(other) {
            proof {
                vstd::arithmetic::div_mod::lemma_basic_div(self@ as int, other@ as int);
                vstd::arithmetic::div_mod::lemma_small_mod(self@, other@);
            }
            return (U256::zero(), self);
        }
        let rest: U256 = self.minus(other);
        if rest.lt(other) {
            proof {
                vstd::arithmetic::div_mod::lemma_fundamental_div_mod_converse(
                    self@ as int,
                    other@ as int,
                    1,
                    rest@ as int,
                );
            }
            return (U256::one(), rest);
        }
        let twice: U256 = other.plus(other);
        let (q, r) = self.div_rem(twice);
        proof {
            vstd::arithmetic::div_mod::lemma_fundamental_div_mod(self@ as int, twice@ as int);
            lemma_quotient_by_double(self@, other@, q@, r@);
        }
        let twice_q: U256 = q.plus(q);
        if r.lt(other) {
            (twice_q, r)
        } else {
            (twice_q.plus(U256::one()), r.minus(other))
        }
    }

    /// A sum that is below `2^256`.
    pub fn plus(self, other: U256) -> (r: U256)
        requires
            self@ + other@ < full(),
        ensures
            r@ == self@ + other@,
            Some(r) == self.add_spec(other),
    {
        proof {
            lemma_u256_of(self@ + other@);
        }
        match self.checked_add(other) {
            Some(v) => v,
            None => self,
        }
    }

    /// A difference that is not negative.
    pub fn minus(self, other: U256) -> (r: U256)
        requires
            self@ >= other@,
        ensures
            r@ == self@ - other@,
            Some(r) == self.sub_spec(other),
    {
        proof {
            lemma_u256_view(self);
            lemma_u256_of((self@ - other@) as nat);
        }
        match self.checked_sub(other) {
            Some(v) => v,
            None => self,
        }
    }

    pub fn checked_div(self, other: U256) -> (r: Option<U256>)
        ensures
            r == self.div_spec(other),
    {
        if other == U256::zero() {
            return None;
        }
        proof {
            if other@ == 0 {
                lemma_u256_injective(other, U256::zero());
            }
        }
        let (q, _r) = self.div_rem(other);
        proof {
            lemma_u256_view(q);
        }
        Some(q)
    }

    pub fn checked_rem(self, other: U256) -> (r: Option<U256>)
        ensures
            r == self.rem_spec(other),
    {
        if other == U256::zero() {
            return None;
        }
        proof {
            if other@ == 0 {
                lemma_u256_injective(other, U256::zero());
            }
        }
        let (_q, r) = self.div_rem(other);
        proof {
            lemma_u256_view(r);
        }
        Some(r)
    }

    /// `self << n` for a shift below the width; bits that leave at the top are lost.
    pub fn shl(self, n: u8) -> (r: U256)
        ensures
            r == self.shl_spec(n as nat),
    {
        let mut v: U256 = self;
        let mut i: u8 = 0;
        proof {
            lemma_u256_view(self);
            vstd::arithmetic::power2::lemma2_to64();
            vstd::arithmetic::div_mod::lemma_small_mod(self@, full());
        }
        while i < n
            invariant
                i <= n,
                v@ == (self@ * pow2(i as nat)) % full(),
            decreases n - i,
        {
            proof {
                lemma_shl_step(self@, i as nat);
            }
            v = v.double();
            i = i + 1;
        }
        proof {
            lemma_u256_view(v);
        }
        v
    }

    /// `self >> n` for a shift below the width.
    pub fn shr(self, n: u8) -> (r: U256)
        ensures
            r == self.shr_spec(n as nat),
    {
        let mut v: U256 = self;
        let mut i: u8 = 0;
        proof {
            vstd::arithmetic::power2::lemma2_to64();
        }
        while i < n
            invariant
                i <= n,
                v@ == self@ / pow2(i as nat),
            decreases n - i,
        {
            proof {
                lemma_shr_step(self@, i as nat);
            }
            v = v.halve();
            i = i + 1;
        }
        proof {
            lemma_u256_view(v);
        }
        v
    }

    /// The low eight bits.
    pub fn low_byte(self) -> (r: u8)
        ensures
            r as nat == self@ % 256,
    {
        (self.lo % 256) as u8
    }
}

proof fn lemma_mul_halves(a: nat, b: nat)
    ensures
        a * b == 2 * (a * (b / 2)) + (if b % 2 == 1 {
            a
        } else {
            0
        }),
        a * (b / 2) <= a * b,
{
    let h = b / 2;
    assert(b == 2 * h + b % 2);
    if b % 2 == 1 {
        assert(a * (2 * h + 1) == 2 * (a * h) + a) by (nonlinear_arith);
    } else {
        assert(a * (2 * h) == 2 * (a * h)) by (nonlinear_arith);
    }
}

proof fn lemma_quotient_by_double(n: nat, d: nat, q: nat, r: nat)
    requires
        d > 0,
        q == n / (d + d),
        r == n % (d + d),
        n < full(),
    ensures
        n == (d + d) * q + r,
        r < d + d,
        q + q <= n,
        r < d ==> n / d == q + q && n % d == r,
        r >= d ==> n / d == q + q + 1 && n % d == r - d && q + q + 1 <= n,
{
    vstd::arithmetic::div_mod::lemma_fundamental_div_mod(n as int, (d + d) as int);
    assert((d + d) * q == d * (q + q)) by (nonlinear_arith);
    assert(q + q <= d * (q + q)) by (nonlinear_arith)
        requires
            d > 0,
    ;
    if r < d {
        vstd::arithmetic::div_mod::lemma_fundamental_div_mod_converse(
            n as int,
            d as int,
            (q + q) as int,
            r as int,
        );
    } else {
        assert(d * (q + q + 1) == d * (q + q) + d) by (nonlinear_arith);
        vstd::arithmetic::div_mod::lemma_fundamental_div_mod_converse(
            n as int,
            d as int,
            (q + q + 1) as int,
            (r - d) as int,
        );
    }
}

proof fn lemma_shl_step(x: nat, i: nat)
    ensures
        ((x * pow2(i)) % full() * 2) % full() == (x * pow2(i + 1)) % full(),
{
    let a = x * pow2(i);
    vstd::arithmetic::power2::lemma_pow2_unfold(i + 1);
    assert(x * (2 * pow2(i)) == (x * pow2(i)) * 2) by (nonlinear_arith);
    vstd::arithmetic::div_mod::lemma_mul_mod_noop_left(a as int, 2, full() as int);
}

proof fn lemma_shr_step(x: nat, i: nat)
    ensures
        x / pow2(i) / 2 == x / pow2(i + 1),
{
    vstd::arithmetic::power2::lemma_pow2_unfold(i + 1);
    vstd::arithmetic::power2::lemma_pow2_pos(i);
    vstd::arithmetic::div_mod::lemma_div_denominator(x as int, pow2(i) as int, 2);
}

} // verus!
