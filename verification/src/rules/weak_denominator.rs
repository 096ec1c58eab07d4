//! Denominators that may be zero, or whose factors may be.

use crate::ast::Loc;
use crate::domain::denominator::{
    denominator_condition, denominator_condition_spec, denominator_factors,
    denominator_factors_spec, denominator_title, denominator_title_spec, is_clmm, is_clmm_spec,
    is_product, is_product_spec, needs_factor_proofs, needs_factor_proofs_spec, violated_obligation,
    violated_obligation_spec,
};
use crate::domain::formula::{FormulaFactor, FormulaFactorView, ProofMode, RoundingMode};
use crate::domain::index_set::single_spec;
use crate::domain::risk::{
    origin_key, origin_key_spec, ObligationKind, RiskKind, RiskOrigin, RiskOriginView,
};
use crate::domain::value::{ValueState, ValueStateView};
use crate::model::{dup_all, opt_view, views};
use crate::options::SecurityMathMode;
use crate::rules::{RuleCtx, RuleCtxView};
use crate::smt::product::{proven_strictly_positive, proven_strictly_positive_spec};
use crate::u256::U256;
use vstd::prelude::*;

verus! {

/// How a factor is called in messages.
pub open spec fn factor_label_spec(factor: FormulaFactorView) -> Seq<char> {
    if factor.name.len() > 0 {
        factor.name
    } else {
        "factor"@
    }
}

pub open spec fn factor_labels_spec(factors: Seq<FormulaFactorView>) -> Seq<Seq<char>> {
    Seq::new(factors.len(), |i: int| factor_label_spec(factors[i]))
}

pub fn factor_label(factor: &FormulaFactor) -> (r: String)
    ensures
        r@ == factor_label_spec(factor@),
{
    let empty: String = String::new();
    if factor.name != empty {
        assert(factor.name@.len() > 0) by {
            if factor.name@.len() == 0 {
                assert(factor.name@ =~= empty@);
            }
        }
        factor.name.clone()
    } else {
        "factor".to_owned()
    }
}

fn factor_labels(factors: &Vec<FormulaFactor>) -> (r: Vec<String>)
    ensures
        views(r@) == factor_labels_spec(views(factors@)),
{
    let ghost wanted = factor_labels_spec(views(factors@));
    let mut r: Vec<String> = Vec::new();
    let mut i: usize = 0;
    while i < factors.len()
        invariant
            i <= factors@.len(),
            wanted == factor_labels_spec(views(factors@)),
            views(r@) =~= wanted.take(i as int),
        decreases factors@.len() - i,
    {
        let ghost start = r@;
        let label: String = factor_label(&factors[i]);
        r.push(label);
        assert(views(r@) =~= views(start).push(label@));
        i = i + 1;
    }
    assert(wanted.take(i as int) =~= wanted);
    r
}

/// Whether the two raw factors of a product, where both are given, are known to be positive.
pub open spec fn discharged_by_factors(
    lhs_factor: Option<ValueStateView>,
    rhs_factor: Option<ValueStateView>,
) -> bool {
    lhs_factor is Some && rhs_factor is Some && proven_strictly_positive_spec(
        lhs_factor->0,
        rhs_factor->0,
    )
}

/// The obligation of a denominator that is not met, where there is one.
pub open spec fn violation_spec(
    numerator: ValueStateView,
    denominator: ValueStateView,
    factors: Seq<FormulaFactorView>,
    math_mode: SecurityMathMode,
    discharged: bool,
) -> Option<ObligationKind> {
    let product = is_product_spec(denominator.formula_facts, factors);
    if product && discharged {
        None
    } else {
        violated_obligation_spec(
            denominator.interval,
            factors,
            product && needs_factor_proofs_spec(numerator, math_mode),
        )
    }
}

/// The risk of a denominator that may be zero, or one of whose factors may be.
pub open spec fn check_spec(
    ctx: RuleCtxView,
    numerator: ValueStateView,
    denominator: ValueStateView,
    denominator_loc: Loc,
    text: Seq<char>,
    is_denominator_helper: bool,
    math_mode: SecurityMathMode,
    discharged: bool,
) -> Option<RiskOriginView> {
    let facts = denominator.formula_facts;
    let factors = denominator_factors_spec(denominator, text, ctx.fn_name, denominator_loc);
    match violation_spec(numerator, denominator, factors, math_mode, discharged) {
        Some(obligation) => Some(
            RiskOriginView {
                key: origin_key_spec(RiskKind::ReachableWeakDenominator, ctx.exp_loc),
                kind: RiskKind::ReachableWeakDenominator,
                loc: ctx.exp_loc,
                source_param_index: single_spec(denominator.parameter_dependencies),
                width: denominator.width_spec(),
                shift_amount: None,
                threshold: if obligation is NonZeroDivisor {
                    Some(U256::zero_spec())
                } else {
                    None
                },
                title: denominator_title_spec(obligation, is_clmm_spec(facts)),
                expr_text: text,
                failed_condition: denominator_condition_spec(
                    obligation,
                    is_clmm_spec(facts),
                    text,
                    factor_labels_spec(factors),
                ),
                path_facts: ctx.path_facts,
                source_interval: denominator.interval.describe_spec(),
                source_name: text,
                helper_name: Some(ctx.fn_name),
                helper_like: is_denominator_helper,
                guard_mismatch: false,
                obligation_kind: obligation,
                proof_mode: if facts is Some {
                    ProofMode::Abstract
                } else {
                    ProofMode::Heuristic
                },
                rounding_mode: match facts {
                    Some(facts) => Some(facts.rounding_mode),
                    None => None,
                },
            },
        ),
        None => None,
    }
}

/// Whether a denominator may be zero or, where it is a product whose factors have to be proved
/// one by one, one of its factors may be. Raw factors that are known to be positive settle the
/// matter for a product.
pub fn check(
    ctx: &RuleCtx,
    numerator: &ValueState,
    denominator: &ValueState,
    denominator_loc: Loc,
    denominator_text: &str,
    is_denominator_helper: bool,
    math_mode: SecurityMathMode,
    lhs_factor: Option<&ValueState>,
    rhs_factor: Option<&ValueState>,
) -> (r: Option<RiskOrigin>)
    ensures
        opt_view(r) == check_spec(
            ctx@,
            numerator@,
            denominator@,
            denominator_loc,
            denominator_text@,
            is_denominator_helper,
            math_mode,
            discharged_by_factors(
                match lhs_factor {
                    Some(v) => Some(v@),
                    None => None,
                },
                match rhs_factor {
                    Some(v) => Some(v@),
                    None => None,
                },
            ),
        ),
{
    let factors: Vec<FormulaFactor> = denominator_factors(
        denominator,
        denominator_text,
        ctx.fn_name.as_str(),
        denominator_loc,
    );
    let product: bool = is_product(&denominator.formula_facts, &factors);
    if product {
        if let (Some(lhs), Some(rhs)) = (lhs_factor, rhs_factor) {
            if proven_strictly_positive(lhs, rhs) {
                return None;
            }
        }
    }
    let factor_proofs: bool = product && needs_factor_proofs(numerator, math_mode);
    let Some(obligation) = violated_obligation(&denominator.interval, &factors, factor_proofs) else {
        return None;
    };
    let clmm: bool = is_clmm(&denominator.formula_facts);
    let labels: Vec<String> = factor_labels(&factors);
    let failed_condition: String = denominator_condition(
        obligation,
        clmm,
        denominator_text,
        &labels,
    );
    let proof_mode: ProofMode = if denominator.formula_facts.is_some() {
        ProofMode::Abstract
    } else {
        ProofMode::Heuristic
    };
    let rounding_mode: Option<RoundingMode> = match &denominator.formula_facts {
        Some(facts) => Some(facts.rounding_mode),
        None => None,
    };
    let threshold: Option<U256> = if obligation == ObligationKind::NonZeroDivisor {
        Some(U256::zero())
    } else {
        None
    };
    Some(
        RiskOrigin {
            key: origin_key(RiskKind::ReachableWeakDenominator, ctx.exp_loc),
            kind: RiskKind::ReachableWeakDenominator,
            loc: ctx.exp_loc,
            source_param_index: denominator.parameter_dependencies.single(),
            width: denominator.width(),
            shift_amount: None,
            threshold,
            title: denominator_title(obligation, clmm),
            expr_text: denominator_text.to_owned(),
            failed_condition,
            path_facts: dup_all(&ctx.path_facts),
            source_interval: denominator.interval.describe(),
            source_name: denominator_text.to_owned(),
            helper_name: Some(ctx.fn_name.clone()),
            helper_like: is_denominator_helper,
            guard_mismatch: false,
            obligation_kind: obligation,
            proof_mode,
            rounding_mode,
        },
    )
}

/// A denominator that is known to be above zero is not reported unless it is a product whose
/// factors have to be proved one by one.
pub proof fn guarded_denominators_are_not_reported(
    ctx: RuleCtxView,
    numerator: ValueStateView,
    denominator: ValueStateView,
    loc: Loc,
    text: Seq<char>,
    helper: bool,
    math_mode: SecurityMathMode,
)
    requires
        denominator.interval.positive_spec(),
        ({
            let factors = denominator_factors_spec(denominator, text, ctx.fn_name, loc);
            !is_product_spec(denominator.formula_facts, factors) || !needs_factor_proofs_spec(
                numerator,
                math_mode,
            )
        }),
    ensures
        check_spec(ctx, numerator, denominator, loc, text, helper, math_mode, false) is None,
{
}

} // verus!
