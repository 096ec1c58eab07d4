//! Abstract values: a range, known bits, a formula, and the risks that led here.

use crate::ast::{SingleType, Type};
use crate::domain::bit_facts::{
    admitted_values_are_bounded, exact_value_is_the_only_one, joined_facts_admit_both, BitFacts,
};
use crate::domain::formula::{FormulaFacts, FormulaFactsView};
use crate::domain::index_set::IndexSet;
use crate::domain::interval::{intersect_is_exact, join_is_least_upper_bound, Interval};
use crate::domain::risk::{
    push_all_new, push_origins, RiskOrigin, RiskOriginView, SymbolicTerm, SymbolicTermView,
};
use crate::domain::widths::{
    is_width, single_width, single_width_spec, type_width, type_width_spec, uint_max, uint_max_spec,
    width_mask,
};
use crate::model::{dup_all, dup_opt, opt_view, same_all, same_opt, views, Dup, SameView};
use crate::u256::{lemma_u256_injective, U256};
use vstd::prelude::*;

verus! {

#[derive(Clone, Debug, PartialEq, Eq)]
pub struct ValueState {
    pub interval: Interval,
    pub term: SymbolicTerm,
    pub bit_facts: Option<BitFacts>,
    pub formula_facts: Option<FormulaFacts>,
    /// The positions of the parameters that the value depends on.
    pub parameter_dependencies: IndexSet,
    pub risky_origins: Vec<RiskOrigin>,
}

#[verifier::ext_equal]
pub struct ValueStateView {
    pub interval: Interval,
    pub term: SymbolicTermView,
    pub bit_facts: Option<BitFacts>,
    pub formula_facts: Option<FormulaFactsView>,
    pub parameter_dependencies: Set<usize>,
    pub risky_origins: Seq<RiskOriginView>,
}

impl View for ValueState {
    type V = ValueStateView;

    open spec fn view(&self) -> ValueStateView {
        ValueStateView {
            interval: self.interval,
            term: self.term@,
            bit_facts: self.bit_facts,
            formula_facts: opt_view(self.formula_facts),
            parameter_dependencies: self.parameter_dependencies@,
            risky_origins: views(self.risky_origins@),
        }
    }
}

impl Dup for ValueState {
    fn dup(&self) -> (r: Self) {
        ValueState {
            interval: self.interval,
            term: self.term.dup(),
            bit_facts: self.bit_facts,
            formula_facts: dup_opt(&self.formula_facts),
            parameter_dependencies: self.parameter_dependencies.dup(),
            risky_origins: dup_all(&self.risky_origins),
        }
    }
}

impl SameView for ValueState {
    fn same(&self, other: &Self) -> (r: bool) {
        self.interval == other.interval && self.term.same(&other.term) && self.bit_facts
            == other.bit_facts && same_opt(&self.formula_facts, &other.formula_facts)
            && self.parameter_dependencies.same(&other.parameter_dependencies) && same_all(
            &self.risky_origins,
            &other.risky_origins,
        )
    }
}

/// The narrowest integer width whose values reach up to `upper`.
pub open spec fn width_of_upper(upper: U256) -> u16 {
    if upper@ <= uint_max_spec(8)@ {
        8
    } else if upper@ <= uint_max_spec(16)@ {
        16
    } else if upper@ <= uint_max_spec(32)@ {
        32
    } else if upper@ <= uint_max_spec(64)@ {
        64
    } else if upper@ <= uint_max_spec(128)@ {
        128
    } else {
        256
    }
}

impl ValueStateView {
    /// A value of which only the range is known.
    pub open spec fn of_interval(interval: Interval) -> ValueStateView {
        ValueStateView {
            interval,
            term: SymbolicTermView::Unknown,
            bit_facts: None,
            formula_facts: None,
            parameter_dependencies: Set::empty(),
            risky_origins: Seq::empty(),
        }
    }

    pub open spec fn top_spec() -> ValueStateView {
        Self::of_interval(Interval::top_spec())
    }

    /// An arbitrary value of an integer type.
    pub open spec fn of_width(width: u16) -> ValueStateView {
        ValueStateView {
            bit_facts: Some(BitFacts::unknown_spec(width)),
            ..Self::of_interval(Interval::range(U256::zero_spec(), uint_max_spec(width)))
        }.refined()
    }

    pub open spec fn exact_uint_spec(width: u16, value: U256) -> ValueStateView {
        let v = value.and_spec(uint_max_spec(width));
        ValueStateView {
            term: SymbolicTermView::Const(v),
            bit_facts: Some(BitFacts::exact_spec(width, value)),
            ..Self::of_interval(Interval::range(v, v))
        }
    }

    /// An arbitrary value of a type.
    pub open spec fn of_type(ty: Type) -> ValueStateView {
        match type_width_spec(ty) {
            Some(width) => Self::of_width(width),
            None => Self::top_spec(),
        }
    }

    pub open spec fn of_single(ty: SingleType) -> ValueStateView {
        match single_width_spec(ty) {
            Some(width) => Self::of_width(width),
            None => Self::top_spec(),
        }
    }

    /// Either of two truth values, as a number.
    pub open spec fn of_bool() -> ValueStateView {
        Self::of_interval(Interval::range(U256::zero_spec(), U256::one_spec()))
    }

    /// The range cut down to what the known bits leave.
    pub open spec fn refined_interval(interval: Interval, facts: Option<BitFacts>) -> Interval {
        match facts {
            Some(f) => interval.intersect_spec(
                Some(f.min_value_spec()),
                Some(f.max_value_spec()),
            ),
            None => interval,
        }
    }

    pub open spec fn refined(self) -> ValueStateView {
        ValueStateView {
            interval: Self::refined_interval(self.interval, self.bit_facts),
            ..self
        }
    }

    pub open spec fn join_spec(self, other: ValueStateView) -> ValueStateView {
        ValueStateView {
            interval: self.interval.join_spec(other.interval),
            term: SymbolicTermView::Unknown,
            bit_facts: match (self.bit_facts, other.bit_facts) {
                (Some(l), Some(r)) => Some(l.join_spec(r)),
                _ => None,
            },
            formula_facts: match (self.formula_facts, other.formula_facts) {
                (Some(l), Some(r)) => l.join_spec(r),
                _ => None,
            },
            parameter_dependencies: self.parameter_dependencies.union(
                other.parameter_dependencies,
            ),
            risky_origins: push_all_new(
                self.risky_origins,
                other.risky_origins,
                other.risky_origins.len(),
            ),
        }.refined()
    }

    pub open spec fn width_spec(self) -> Option<u16> {
        match self.bit_facts {
            Some(f) => Some(f.width),
            None => match self.interval.upper {
                Some(upper) => Some(width_of_upper(upper)),
                None => None,
            },
        }
    }

    pub open spec fn exact_value_spec(self) -> Option<U256> {
        match self.interval.is_singleton_spec() {
            Some(v) => Some(v),
            None => match self.bit_facts {
                Some(f) => f.exact_value_spec(),
                None => None,
            },
        }
    }

    /// Whether some bit of `mask` is not known to be zero.
    pub open spec fn may_have_bits(self, mask: U256) -> bool {
        match self.bit_facts {
            Some(f) => f.may_have_bits(mask),
            None => true,
        }
    }

    /// Whether the known bits, where there are any, are those of an integer type.
    pub open spec fn valid(self) -> bool {
        self.bit_facts is Some ==> is_width(self.bit_facts->0.width)
    }

    /// The numbers that the abstract value stands for.
    pub open spec fn admits(self, x: U256) -> bool {
        &&& self.interval.contains(x@)
        &&& self.bit_facts is Some ==> self.bit_facts->0.admits(x) && x@ <= uint_max_spec(
            self.bit_facts->0.width,
        )@
    }
}

impl ValueState {
    pub fn top() -> (r: Self)
        ensures
            r@ == ValueStateView::top_spec(),
    {
        Self::with_interval(Interval::top())
    }

    pub fn with_interval(interval: Interval) -> (r: Self)
        ensures
            r@ == ValueStateView::of_interval(interval),
    {
        let r = ValueState {
            interval,
            term: SymbolicTerm::Unknown,
            bit_facts: None,
            formula_facts: None,
            parameter_dependencies: IndexSet::new(),
            risky_origins: Vec::new(),
        };
        assert(r@.risky_origins =~= Seq::<RiskOriginView>::empty());
        r
    }

    pub fn with_width(width: u16) -> (r: Self)
        ensures
            r@ == ValueStateView::of_width(width),
    {
        let mut value = Self::with_interval(Interval::between(U256::zero(), uint_max(width)));
        value.bit_facts = Some(BitFacts::unknown(width));
        value.refine_with_bit_facts();
        value
    }

    pub fn exact_uint(width: u16, value: U256) -> (r: Self)
        ensures
            r@ == ValueStateView::exact_uint_spec(width, value),
    {
        let masked: U256 = value.bitand(width_mask(width));
        let mut r = Self::with_interval(Interval::singleton(masked));
        r.term = SymbolicTerm::Const(masked);
        r.bit_facts = Some(BitFacts::exact(width, value));
        r
    }

    /// Either of two truth values, as a number.
    pub fn either_bool() -> (r: Self)
        ensures
            r@ == ValueStateView::of_bool(),
    {
        Self::with_interval(Interval::between(U256::zero(), U256::one()))
    }

    pub fn join(&self, other: &Self) -> (r: Self)
        ensures
            r@ == self@.join_spec(other@),
    {
        let mut dependencies = self.parameter_dependencies.dup();
        dependencies.extend(&other.parameter_dependencies);
        let mut risky: Vec<RiskOrigin> = dup_all(&self.risky_origins);
        push_origins(&mut risky, &other.risky_origins);
        let bit_facts: Option<BitFacts> = match (&self.bit_facts, &other.bit_facts) {
            (Some(lhs), Some(rhs)) => Some(lhs.join(rhs)),
            _ => None,
        };
        let formula_facts: Option<FormulaFacts> = match (
            &self.formula_facts,
            &other.formula_facts,
        ) {
            (Some(lhs), Some(rhs)) => lhs.join(rhs),
            _ => None,
        };
        let mut joined = ValueState {
            interval: self.interval.join(&other.interval),
            term: SymbolicTerm::Unknown,
            bit_facts,
            formula_facts,
            parameter_dependencies: dependencies,
            risky_origins: risky,
        };
        joined.refine_with_bit_facts();
        joined
    }

    pub fn width(&self) -> (r: Option<u16>)
        ensures
            r == self@.width_spec(),
    {
        if let Some(facts) = &self.bit_facts {
            return Some(facts.width);
        }
        let Some(upper) = self.interval.upper else {
            return None;
        };
        if upper.le(uint_max(8)) {
            Some(8)
        } else if upper.le(uint_max(16)) {
            Some(16)
        } else if upper.le(uint_max(32)) {
            Some(32)
        } else if upper.le(uint_max(64)) {
            Some(64)
        } else if upper.le(uint_max(128)) {
            Some(128)
        } else {
            Some(256)
        }
    }

    pub fn exact_value(&self) -> (r: Option<U256>)
        ensures
            r == self@.exact_value_spec(),
    {
        if let Some(v) = self.interval.is_singleton() {
            return Some(v);
        }
        match &self.bit_facts {
            Some(facts) => facts.exact_value(),
            None => None,
        }
    }

    pub fn refine_with_bit_facts(&mut self)
        ensures
            final(self)@ == old(self)@.refined(),
    {
        if let Some(facts) = self.bit_facts {
            let lower: U256 = facts.min_value();
            let upper: U256 = facts.max_value();
            self.interval = self.interval.intersect(Some(lower), Some(upper));
        }
    }

    pub fn may_have_non_zero_bits(&self, mask: U256) -> (r: bool)
        ensures
            r == self@.may_have_bits(mask),
    {
        match &self.bit_facts {
            Some(facts) => facts.discarded_bits_may_be_non_zero(mask),
            None => true,
        }
    }
}

/// An arbitrary value of a type.
pub fn type_interval(ty: &Type) -> (r: ValueState)
    ensures
        r@ == ValueStateView::of_type(*ty),
{
    match type_width(ty) {
        Some(width) => ValueState::with_width(width),
        None => ValueState::top(),
    }
}

pub fn single_interval(ty: &SingleType) -> (r: ValueState)
    ensures
        r@ == ValueStateView::of_single(*ty),
{
    match single_width(ty) {
        Some(width) => ValueState::with_width(width),
        None => ValueState::top(),
    }
}

/// Cutting a range down by the known bits loses no number that the value stands for, and adds
/// none.
pub proof fn refining_is_exact(v: ValueStateView, x: U256)
    requires
        v.valid(),
    ensures
        v.refined().admits(x) <==> v.admits(x),
        v.refined().valid(),
{
    if let Some(f) = v.bit_facts {
        intersect_is_exact(v.interval, Some(f.min_value_spec()), Some(f.max_value_spec()));
        if v.admits(x) {
            admitted_values_are_bounded(f, x);
        }
        assert(v.refined().interval.contains(x@) ==> v.interval.contains(x@));
        assert(v.admits(x) ==> v.refined().interval.contains(x@));
    }
}

/// A join stands for every number that either side stands for.
pub proof fn join_admits_both(a: ValueStateView, b: ValueStateView, x: U256)
    requires
        a.valid(),
        b.valid(),
        a.admits(x) || b.admits(x),
    ensures
        a.join_spec(b).admits(x),
        a.join_spec(b).valid(),
{
    let plain = ValueStateView {
        interval: a.interval.join_spec(b.interval),
        term: SymbolicTermView::Unknown,
        bit_facts: match (a.bit_facts, b.bit_facts) {
            (Some(l), Some(r)) => Some(l.join_spec(r)),
            _ => None,
        },
        formula_facts: match (a.formula_facts, b.formula_facts) {
            (Some(l), Some(r)) => l.join_spec(r),
            _ => None,
        },
        parameter_dependencies: a.parameter_dependencies.union(b.parameter_dependencies),
        risky_origins: push_all_new(a.risky_origins, b.risky_origins, b.risky_origins.len()),
    };
    join_is_least_upper_bound(a.interval, b.interval, a.interval);
    assert(a.interval.join_spec(b.interval).contains(x@));
    if a.bit_facts is Some && b.bit_facts is Some {
        joined_facts_admit_both(a.bit_facts->0, b.bit_facts->0, x);
    }
    assert(plain.valid() && plain.admits(x));
    refining_is_exact(plain, x);
    assert(a.join_spec(b) == plain.refined());
}

/// Where an abstract value has an exact value, it stands for no other number.
pub proof fn exact_value_is_unique(v: ValueStateView, x: U256)
    requires
        v.valid(),
        v.admits(x),
        v.exact_value_spec() is Some,
    ensures
        v.exact_value_spec() == Some(x),
{
    match v.interval.is_singleton_spec() {
        Some(only) => lemma_u256_injective(only, x),
        None => exact_value_is_the_only_one(v.bit_facts->0, x),
    }
}

} // verus!
