//! Sets of formula tags and of semantic roles.

use vstd::prelude::*;

verus! {

/// What the name of a quantity, or how it was computed, says about its part in a formula.
#[derive(Clone, Copy, Debug, PartialEq, Eq, Structural)]
pub enum FormulaTag {
    PriceLike,
    PriceDiff,
    LiquidityLike,
    PriceProduct,
    LiquidityScaled,
    ClmmNumerator,
    ClmmDenominator,
    DenominatorLike,
}

/// A set of formula tags.
#[derive(Clone, Copy, Debug, PartialEq, Eq, Structural)]
pub struct TagSet {
    pub price_like: bool,
    pub price_diff: bool,
    pub liquidity_like: bool,
    pub price_product: bool,
    pub liquidity_scaled: bool,
    pub clmm_numerator: bool,
    pub clmm_denominator: bool,
    pub denominator_like: bool,
}

impl TagSet {
    pub open spec fn has_spec(self, tag: FormulaTag) -> bool {
        match tag {
            FormulaTag::PriceLike => self.price_like,
            FormulaTag::PriceDiff => self.price_diff,
            FormulaTag::LiquidityLike => self.liquidity_like,
            FormulaTag::PriceProduct => self.price_product,
            FormulaTag::LiquidityScaled => self.liquidity_scaled,
            FormulaTag::ClmmNumerator => self.clmm_numerator,
            FormulaTag::ClmmDenominator => self.clmm_denominator,
            FormulaTag::DenominatorLike => self.denominator_like,
        }
    }

    pub open spec fn empty_spec() -> TagSet {
        TagSet {
            price_like: false,
            price_diff: false,
            liquidity_like: false,
            price_product: false,
            liquidity_scaled: false,
            clmm_numerator: false,
            clmm_denominator: false,
            denominator_like: false,
        }
    }

    pub open spec fn union_spec(self, other: TagSet) -> TagSet {
        TagSet {
            price_like: self.price_like || other.price_like,
            price_diff: self.price_diff || other.price_diff,
            liquidity_like: self.liquidity_like || other.liquidity_like,
            price_product: self.price_product || other.price_product,
            liquidity_scaled: self.liquidity_scaled || other.liquidity_scaled,
            clmm_numerator: self.clmm_numerator || other.clmm_numerator,
            clmm_denominator: self.clmm_denominator || other.clmm_denominator,
            denominator_like: self.denominator_like || other.denominator_like,
        }
    }

    pub open spec fn intersection_spec(self, other: TagSet) -> TagSet {
        TagSet {
            price_like: self.price_like && other.price_like,
            price_diff: self.price_diff && other.price_diff,
            liquidity_like: self.liquidity_like && other.liquidity_like,
            price_product: self.price_product && other.price_product,
            liquidity_scaled: self.liquidity_scaled && other.liquidity_scaled,
            clmm_numerator: self.clmm_numerator && other.clmm_numerator,
            clmm_denominator: self.clmm_denominator && other.clmm_denominator,
            denominator_like: self.denominator_like && other.denominator_like,
        }
    }

    pub open spec fn insert_spec(self, tag: FormulaTag) -> TagSet {
        TagSet {
            price_like: self.price_like || tag is PriceLike,
            price_diff: self.price_diff || tag is PriceDiff,
            liquidity_like: self.liquidity_like || tag is LiquidityLike,
            price_product: self.price_product || tag is PriceProduct,
            liquidity_scaled: self.liquidity_scaled || tag is LiquidityScaled,
            clmm_numerator: self.clmm_numerator || tag is ClmmNumerator,
            clmm_denominator: self.clmm_denominator || tag is ClmmDenominator,
            denominator_like: self.denominator_like || tag is DenominatorLike,
        }
    }

    pub fn empty() -> (r: Self)
        ensures
            r == Self::empty_spec(),
            forall|tag: FormulaTag| !r.has_spec(tag),
    {
        TagSet {
            price_like: false,
            price_diff: false,
            liquidity_like: false,
            price_product: false,
            liquidity_scaled: false,
            clmm_numerator: false,
            clmm_denominator: false,
            denominator_like: false,
        }
    }

    pub fn contains(&self, tag: FormulaTag) -> (r: bool)
        ensures
            r == self.has_spec(tag),
    {
        match tag {
            FormulaTag::PriceLike => self.price_like,
            FormulaTag::PriceDiff => self.price_diff,
            FormulaTag::LiquidityLike => self.liquidity_like,
            FormulaTag::PriceProduct => self.price_product,
            FormulaTag::LiquidityScaled => self.liquidity_scaled,
            FormulaTag::ClmmNumerator => self.clmm_numerator,
            FormulaTag::ClmmDenominator => self.clmm_denominator,
            FormulaTag::DenominatorLike => self.denominator_like,
        }
    }

    pub fn is_empty(&self) -> (r: bool)
        ensures
            r <==> forall|tag: FormulaTag| !self.has_spec(tag),
            r == (*self == Self::empty_spec()),
    {
        let any: bool = self.price_like || self.price_diff || self.liquidity_like || self.price_product || self.liquidity_scaled || self.clmm_numerator || self.clmm_denominator || self.denominator_like;
        proof {
            assert(self.price_like == self.has_spec(FormulaTag::PriceLike));
            assert(self.price_diff == self.has_spec(FormulaTag::PriceDiff));
            assert(self.liquidity_like == self.has_spec(FormulaTag::LiquidityLike));
            assert(self.price_product == self.has_spec(FormulaTag::PriceProduct));
            assert(self.liquidity_scaled == self.has_spec(FormulaTag::LiquidityScaled));
            assert(self.clmm_numerator == self.has_spec(FormulaTag::ClmmNumerator));
            assert(self.clmm_denominator == self.has_spec(FormulaTag::ClmmDenominator));
            assert(self.denominator_like == self.has_spec(FormulaTag::DenominatorLike));
        }
        !any
    }

    pub fn union(&self, other: &Self) -> (r: Self)
        ensures
            r == self.union_spec(*other),
            forall|tag: FormulaTag|
                r.has_spec(tag) == (self.has_spec(tag) || other.has_spec(tag)),
    {
        TagSet {
            price_like: self.price_like || other.price_like,
            price_diff: self.price_diff || other.price_diff,
            liquidity_like: self.liquidity_like || other.liquidity_like,
            price_product: self.price_product || other.price_product,
            liquidity_scaled: self.liquidity_scaled || other.liquidity_scaled,
            clmm_numerator: self.clmm_numerator || other.clmm_numerator,
            clmm_denominator: self.clmm_denominator || other.clmm_denominator,
            denominator_like: self.denominator_like || other.denominator_like,
        }
    }

    pub fn intersection(&self, other: &Self) -> (r: Self)
        ensures
            r == self.intersection_spec(*other),
            forall|tag: FormulaTag|
                r.has_spec(tag) == (self.has_spec(tag) && other.has_spec(tag)),
    {
        TagSet {
            price_like: self.price_like && other.price_like,
            price_diff: self.price_diff && other.price_diff,
            liquidity_like: self.liquidity_like && other.liquidity_like,
            price_product: self.price_product && other.price_product,
            liquidity_scaled: self.liquidity_scaled && other.liquidity_scaled,
            clmm_numerator: self.clmm_numerator && other.clmm_numerator,
            clmm_denominator: self.clmm_denominator && other.clmm_denominator,
            denominator_like: self.denominator_like && other.denominator_like,
        }
    }

    /// The set with one more element.
    pub fn with(&self, tag: FormulaTag) -> (r: Self)
        ensures
            r == self.insert_spec(tag),
            forall|other: FormulaTag|
                r.has_spec(other) == (self.has_spec(other) || other == tag),
    {
        let mut r: TagSet = *self;
        match tag {
            FormulaTag::PriceLike => r.price_like = true,
            FormulaTag::PriceDiff => r.price_diff = true,
            FormulaTag::LiquidityLike => r.liquidity_like = true,
            FormulaTag::PriceProduct => r.price_product = true,
            FormulaTag::LiquidityScaled => r.liquidity_scaled = true,
            FormulaTag::ClmmNumerator => r.clmm_numerator = true,
            FormulaTag::ClmmDenominator => r.clmm_denominator = true,
            FormulaTag::DenominatorLike => r.denominator_like = true,
        }
        r
    }
}

/// The part that a quantity plays in the expression it comes from.
#[derive(Clone, Copy, Debug, PartialEq, Eq, Structural)]
pub enum SemanticRole {
    Difference,
    MulFactor,
    DivLhs,
    DivRhs,
    Pow2Scale,
}

/// A set of semantic roles.
#[derive(Clone, Copy, Debug, PartialEq, Eq, Structural)]
pub struct RoleSet {
    pub difference: bool,
    pub mul_factor: bool,
    pub div_lhs: bool,
    pub div_rhs: bool,
    pub pow2_scale: bool,
}

impl RoleSet {
    pub open spec fn has_spec(self, role: SemanticRole) -> bool {
        match role {
            SemanticRole::Difference => self.difference,
            SemanticRole::MulFactor => self.mul_factor,
            SemanticRole::DivLhs => self.div_lhs,
            SemanticRole::DivRhs => self.div_rhs,
            SemanticRole::Pow2Scale => self.pow2_scale,
        }
    }

    pub open spec fn empty_spec() -> RoleSet {
        RoleSet {
            difference: false,
            mul_factor: false,
            div_lhs: false,
            div_rhs: false,
            pow2_scale: false,
        }
    }

    pub open spec fn union_spec(self, other: RoleSet) -> RoleSet {
        RoleSet {
            difference: self.difference || other.difference,
            mul_factor: self.mul_factor || other.mul_factor,
            div_lhs: self.div_lhs || other.div_lhs,
            div_rhs: self.div_rhs || other.div_rhs,
            pow2_scale: self.pow2_scale || other.pow2_scale,
        }
    }

    pub open spec fn intersection_spec(self, other: RoleSet) -> RoleSet {
        RoleSet {
            difference: self.difference && other.difference,
            mul_factor: self.mul_factor && other.mul_factor,
            div_lhs: self.div_lhs && other.div_lhs,
            div_rhs: self.div_rhs && other.div_rhs,
            pow2_scale: self.pow2_scale && other.pow2_scale,
        }
    }

    pub open spec fn insert_spec(self, role: SemanticRole) -> RoleSet {
        RoleSet {
            difference: self.difference || role is Difference,
            mul_factor: self.mul_factor || role is MulFactor,
            div_lhs: self.div_lhs || role is DivLhs,
            div_rhs: self.div_rhs || role is DivRhs,
            pow2_scale: self.pow2_scale || role is Pow2Scale,
        }
    }

    pub fn empty() -> (r: Self)
        ensures
            r == Self::empty_spec(),
            forall|role: SemanticRole| !r.has_spec(role),
    {
        RoleSet {
            difference: false,
            mul_factor: false,
            div_lhs: false,
            div_rhs: false,
            pow2_scale: false,
        }
    }

    pub fn contains(&self, role: SemanticRole) -> (r: bool)
        ensures
            r == self.has_spec(role),
    {
        match role {
            SemanticRole::Difference => self.difference,
            SemanticRole::MulFactor => self.mul_factor,
            SemanticRole::DivLhs => self.div_lhs,
            SemanticRole::DivRhs => self.div_rhs,
            SemanticRole::Pow2Scale => self.pow2_scale,
        }
    }

    pub fn is_empty(&self) -> (r: bool)
        ensures
            r <==> forall|role: SemanticRole| !self.has_spec(role),
            r == (*self == Self::empty_spec()),
    {
        let any: bool = self.difference || self.mul_factor || self.div_lhs || self.div_rhs || self.pow2_scale;
        proof {
            assert(self.difference == self.has_spec(SemanticRole::Difference));
            assert(self.mul_factor == self.has_spec(SemanticRole::MulFactor));
            assert(self.div_lhs == self.has_spec(SemanticRole::DivLhs));
            assert(self.div_rhs == self.has_spec(SemanticRole::DivRhs));
            assert(self.pow2_scale == self.has_spec(SemanticRole::Pow2Scale));
        }
        !any
    }

    pub fn union(&self, other: &Self) -> (r: Self)
        ensures
            r == self.union_spec(*other),
            forall|role: SemanticRole|
                r.has_spec(role) == (self.has_spec(role) || other.has_spec(role)),
    {
        RoleSet {
            difference: self.difference || other.difference,
            mul_factor: self.mul_factor || other.mul_factor,
            div_lhs: self.div_lhs || other.div_lhs,
            div_rhs: self.div_rhs || other.div_rhs,
            pow2_scale: self.pow2_scale || other.pow2_scale,
        }
    }

    pub fn intersection(&self, other: &Self) -> (r: Self)
        ensures
            r == self.intersection_spec(*other),
            forall|role: SemanticRole|
                r.has_spec(role) == (self.has_spec(role) && other.has_spec(role)),
    {
        RoleSet {
            difference: self.difference && other.difference,
            mul_factor: self.mul_factor && other.mul_factor,
            div_lhs: self.div_lhs && other.div_lhs,
            div_rhs: self.div_rhs && other.div_rhs,
            pow2_scale: self.pow2_scale && other.pow2_scale,
        }
    }

    /// The set with one more element.
    pub fn with(&self, role: SemanticRole) -> (r: Self)
        ensures
            r == self.insert_spec(role),
            forall|other: SemanticRole|
                r.has_spec(other) == (self.has_spec(other) || other == role),
    {
        let mut r: RoleSet = *self;
        match role {
            SemanticRole::Difference => r.difference = true,
            SemanticRole::MulFactor => r.mul_factor = true,
            SemanticRole::DivLhs => r.div_lhs = true,
            SemanticRole::DivRhs => r.div_rhs = true,
            SemanticRole::Pow2Scale => r.pow2_scale = true,
        }
        r
    }
}

} // verus!
