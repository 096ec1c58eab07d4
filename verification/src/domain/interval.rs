//! Ranges of unsigned integers, with either end possibly unknown.

use crate::text::{decimal, write_u256};
use crate::u256::{lemma_u256_injective, U256};
use vstd::prelude::*;

verus! {

#[derive(Clone, Copy, Debug, PartialEq, Eq, Structural)]
pub struct Interval {
    pub lower: Option<U256>,
    pub upper: Option<U256>,
    pub bottom: bool,
}

/// Whether a lower end, where there is one, lets `n` through.
pub open spec fn above(lower: Option<U256>, n: nat) -> bool {
    match lower {
        Some(l) => l@ <= n,
        None => true,
    }
}

/// Whether an upper end, where there is one, lets `n` through.
pub open spec fn below(upper: Option<U256>, n: nat) -> bool {
    match upper {
        Some(u) => n <= u@,
        None => true,
    }
}

impl Interval {
    /// The numbers that the interval stands for.
    pub open spec fn contains(self, n: nat) -> bool {
        !self.bottom && above(self.lower, n) && below(self.upper, n)
    }

    pub open spec fn range(lower: U256, upper: U256) -> Interval {
        Interval { lower: Some(lower), upper: Some(upper), bottom: false }
    }

    pub open spec fn top_spec() -> Interval {
        Interval { lower: None, upper: None, bottom: false }
    }

    pub open spec fn bottom_spec() -> Interval {
        Interval { lower: None, upper: None, bottom: true }
    }

    pub open spec fn join_spec(self, other: Interval) -> Interval {
        if self.bottom {
            other
        } else if other.bottom {
            self
        } else {
            Interval {
                lower: match (self.lower, other.lower) {
                    (Some(l), Some(r)) => Some(l.min_spec(r)),
                    _ => None,
                },
                upper: match (self.upper, other.upper) {
                    (Some(l), Some(r)) => Some(l.max_spec(r)),
                    _ => None,
                },
                bottom: false,
            }
        }
    }

    /// The tighter of two lower ends.
    pub open spec fn tighter_lower(a: Option<U256>, b: Option<U256>) -> Option<U256> {
        match (a, b) {
            (Some(l), Some(r)) => Some(l.max_spec(r)),
            (Some(l), None) => Some(l),
            (None, r) => r,
        }
    }

    /// The tighter of two upper ends.
    pub open spec fn tighter_upper(a: Option<U256>, b: Option<U256>) -> Option<U256> {
        match (a, b) {
            (Some(l), Some(r)) => Some(l.min_spec(r)),
            (Some(l), None) => Some(l),
            (None, r) => r,
        }
    }

    pub open spec fn intersect_spec(self, lower: Option<U256>, upper: Option<U256>) -> Interval {
        let lo = Self::tighter_lower(self.lower, lower);
        let hi = Self::tighter_upper(self.upper, upper);
        if self.bottom || (lo is Some && hi is Some && lo->0@ > hi->0@) {
            Self::bottom_spec()
        } else {
            Interval { lower: lo, upper: hi, bottom: false }
        }
    }

    pub open spec fn is_singleton_spec(self) -> Option<U256> {
        if !self.bottom && self.lower is Some && self.lower == self.upper {
            self.lower
        } else {
            None
        }
    }

    pub open spec fn describe_spec(self) -> Seq<char> {
        if self.bottom {
            "unreachable"@
        } else {
            match (self.lower, self.upper) {
                (Some(lo), Some(hi)) => if lo == hi {
                    decimal(lo@)
                } else {
                    "["@ + decimal(lo@) + ", "@ + decimal(hi@) + "]"@
                },
                (Some(lo), None) => ">= "@ + decimal(lo@),
                (None, Some(hi)) => "<= "@ + decimal(hi@),
                (None, None) => "unknown"@,
            }
        }
    }

    /// Whether the lower end is known and above zero.
    pub open spec fn positive_spec(self) -> bool {
        self.lower is Some && self.lower->0@ > 0
    }

    /// Whether the upper end is known and at most `bound`.
    pub open spec fn at_most_spec(self, bound: U256) -> bool {
        self.upper is Some && self.upper->0@ <= bound@
    }

    #[verifier::when_used_as_spec(top_spec)]
    pub fn top() -> (r: Self)
        ensures
            r == Self::top_spec(),
    {
        Interval { lower: None, upper: None, bottom: false }
    }

    pub fn singleton(value: U256) -> (r: Self)
        ensures
            r == Self::range(value, value),
    {
        Interval { lower: Some(value), upper: Some(value), bottom: false }
    }

    #[verifier::when_used_as_spec(bottom_spec)]
    pub fn bottom() -> (r: Self)
        ensures
            r == Self::bottom_spec(),
    {
        Interval { lower: None, upper: None, bottom: true }
    }

    /// The interval from `lower` to `upper`.
    pub fn between(lower: U256, upper: U256) -> (r: Self)
        ensures
            r == Self::range(lower, upper),
    {
        Interval { lower: Some(lower), upper: Some(upper), bottom: false }
    }

    pub fn join(&self, other: &Self) -> (r: Self)
        ensures
            r == self.join_spec(*other),
    {
        if self.bottom {
            return *other;
        }
        if other.bottom {
            return *self;
        }
        Interval {
            lower: match (self.lower, other.lower) {
                (Some(lhs), Some(rhs)) => Some(lhs.min(rhs)),
                _ => None,
            },
            upper: match (self.upper, other.upper) {
                (Some(lhs), Some(rhs)) => Some(lhs.max(rhs)),
                _ => None,
            },
            bottom: false,
        }
    }

    pub fn intersect(&self, lower: Option<U256>, upper: Option<U256>) -> (r: Self)
        ensures
            r == self.intersect_spec(lower, upper),
    {
        if self.bottom {
            return Self::bottom();
        }
        let lower = match (self.lower, lower) {
            (Some(lhs), Some(rhs)) => Some(lhs.max(rhs)),
            (Some(lhs), None) => Some(lhs),
            (None, rhs) => rhs,
        };
        let upper = match (self.upper, upper) {
            (Some(lhs), Some(rhs)) => Some(lhs.min(rhs)),
            (Some(lhs), None) => Some(lhs),
            (None, rhs) => rhs,
        };
        if let (Some(lo), Some(hi)) = (lower, upper) {
            if hi.lt(lo) {
                return Self::bottom();
            }
        }
        Interval { lower, upper, bottom: false }
    }

    pub fn is_singleton(&self) -> (r: Option<U256>)
        ensures
            r == self.is_singleton_spec(),
    {
        if self.bottom {
            return None;
        }
        match (self.lower, self.upper) {
            (Some(lo), Some(hi)) => if lo == hi {
                Some(lo)
            } else {
                None
            },
            _ => None,
        }
    }

    pub fn positive(&self) -> (r: bool)
        ensures
            r == self.positive_spec(),
    {
        match self.lower {
            Some(lower) => U256::zero().lt(lower),
            None => false,
        }
    }

    pub fn at_most(&self, bound: U256) -> (r: bool)
        ensures
            r == self.at_most_spec(bound),
    {
        match self.upper {
            Some(upper) => upper.le(bound),
            None => false,
        }
    }

    pub fn describe(&self) -> (r: String)
        ensures
            r@ == self.describe_spec(),
    {
        if self.bottom {
            return "unreachable".to_owned();
        }
        match (self.lower, self.upper) {
            (Some(lo), Some(hi)) => {
                if lo == hi {
                    return write_u256(lo);
                }
                let mut s: String = "[".to_owned();
                s.append(write_u256(lo).as_str());
                s.append(", ");
                s.append(write_u256(hi).as_str());
                s.append("]");
                s
            },
            (Some(lo), None) => {
                let mut s: String = ">= ".to_owned();
                s.append(write_u256(lo).as_str());
                s
            },
            (None, Some(hi)) => {
                let mut s: String = "<= ".to_owned();
                s.append(write_u256(hi).as_str());
                s
            },
            (None, None) => "unknown".to_owned(),
        }
    }
}

/// A join keeps every number of both sides, and both ends of a join of ranges are reached:
/// no smaller range holds both.
pub proof fn join_is_least_upper_bound(a: Interval, b: Interval, wider: Interval)
    ensures
        forall|n: nat| a.contains(n) || b.contains(n) ==> #[trigger] a.join_spec(b).contains(n),
        ({
            &&& !wider.bottom
            &&& !a.bottom
            &&& !b.bottom
            &&& wider.lower is Some ==> a.lower is Some && b.lower is Some && wider.lower->0@
                <= a.lower->0@ && wider.lower->0@ <= b.lower->0@
            &&& wider.upper is Some ==> a.upper is Some && b.upper is Some && wider.upper->0@
                >= a.upper->0@ && wider.upper->0@ >= b.upper->0@
        }) ==> forall|n: nat| #[trigger]
            a.join_spec(b).contains(n) ==> wider.contains(n),
{
}

/// Joining does not depend on the order of the two sides, nor on how joins are grouped.
pub proof fn join_is_commutative_and_associative(a: Interval, b: Interval, c: Interval)
    ensures
        !(a.bottom && b.bottom) ==> a.join_spec(b) == b.join_spec(a),
        a.join_spec(b).join_spec(c) == a.join_spec(b.join_spec(c)),
        a.join_spec(a) == a,
{
    if a.lower is Some && b.lower is Some && a.lower->0@ == b.lower->0@ {
        lemma_u256_injective(a.lower->0, b.lower->0);
    }
    if a.upper is Some && b.upper is Some && a.upper->0@ == b.upper->0@ {
        lemma_u256_injective(a.upper->0, b.upper->0);
    }
    if a.lower is Some && c.lower is Some && a.lower->0@ == c.lower->0@ {
        lemma_u256_injective(a.lower->0, c.lower->0);
    }
    if a.upper is Some && c.upper is Some && a.upper->0@ == c.upper->0@ {
        lemma_u256_injective(a.upper->0, c.upper->0);
    }
    if b.lower is Some && c.lower is Some && b.lower->0@ == c.lower->0@ {
        lemma_u256_injective(b.lower->0, c.lower->0);
    }
    if b.upper is Some && c.upper is Some && b.upper->0@ == c.upper->0@ {
        lemma_u256_injective(b.upper->0, c.upper->0);
    }
}

/// An intersection keeps exactly the numbers of the interval that lie between the two ends, and
/// of an interval that is not empty it is empty only where there is no such number.
pub proof fn intersect_is_exact(a: Interval, lower: Option<U256>, upper: Option<U256>)
    ensures
        forall|n: nat| #[trigger]
            a.intersect_spec(lower, upper).contains(n) <==> a.contains(n) && above(lower, n)
                && below(upper, n),
        a.intersect_spec(lower, upper).bottom <==> (forall|n: nat| #![trigger a.contains(n)]
            !(a.contains(n) && above(lower, n) && below(upper, n))) || (!a.bottom && a.lower is Some
            && a.upper is Some && a.lower->0@ > a.upper->0@),
{
    let r = a.intersect_spec(lower, upper);
    if !r.bottom {
        let low: nat = match r.lower {
            Some(l) => l@,
            None => 0,
        };
        assert(r.contains(low));
        assert(a.contains(low) && above(lower, low) && below(upper, low));
    }
}

} // verus!
