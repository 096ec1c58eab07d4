//! What has to hold of a denominator.

use crate::ast::Loc;
use crate::domain::formula::{
    ExprOp, FormulaFactor, FormulaFactorView, FormulaFacts, FormulaFactsView, ProofMode,
};
use crate::domain::hash::{stable_hash_of_three, stable_hash_spec};
use crate::domain::interval::Interval;
use crate::domain::risk::ObligationKind;
use crate::domain::tags::{RoleSet, SemanticRole, TagSet};
use crate::domain::value::{ValueState, ValueStateView};
use crate::model::{opt_view, views, Dup};
use crate::options::SecurityMathMode;
use crate::text::{join, joined};
use crate::u256::{lemma_u256_injective, U256};
use vstd::prelude::*;

verus! {

/// The first place from `from` on whose id is not below `id`.
pub open spec fn place_of_id(factors: Seq<FormulaFactorView>, id: u64, from: nat) -> nat
    decreases factors.len() - from,
{
    if from < factors.len() && factors[from as int].id < id {
        place_of_id(factors, id, from + 1)
    } else {
        from
    }
}

/// Factors in the order of their ids, after one more; of two with the same id the earlier stays.
pub open spec fn with_by_id(
    factors: Seq<FormulaFactorView>,
    factor: FormulaFactorView,
) -> Seq<FormulaFactorView> {
    let at = place_of_id(factors, factor.id, 0);
    if at < factors.len() && factors[at as int].id == factor.id {
        factors
    } else {
        factors.insert(at as int, factor)
    }
}

/// The first `n` factors in the order of their ids, each id once.
pub open spec fn by_id(factors: Seq<FormulaFactorView>, n: nat) -> Seq<FormulaFactorView>
    decreases n,
{
    if n == 0 || n > factors.len() {
        Seq::empty()
    } else {
        with_by_id(by_id(factors, (n - 1) as nat), factors[n - 1])
    }
}

fn insert_by_id(factors: &mut Vec<FormulaFactor>, factor: &FormulaFactor)
    ensures
        views(final(factors)@) == with_by_id(views(old(factors)@), factor@),
{
    let ghost start = views(factors@);
    let mut at: usize = 0;
    while at < factors.len() && factors[at].id < factor.id
        invariant
            at <= factors@.len(),
            factors@ == old(factors)@,
            start == views(factors@),
            place_of_id(start, factor@.id, 0) == place_of_id(start, factor@.id, at as nat),
        decreases factors@.len() - at,
    {
        at = at + 1;
    }
    if !(at < factors.len() && factors[at].id == factor.id) {
        factors.insert(at, factor.dup());
        assert(views(factors@) =~= start.insert(at as int, factor@));
    }
}

/// The factors of a denominator: those of its formula, or else the denominator as a whole.
#[verifier::opaque]
pub open spec fn denominator_factors_spec(
    denominator: ValueStateView,
    text: Seq<char>,
    function: Seq<char>,
    loc: Loc,
) -> Seq<FormulaFactorView> {
    let facts = denominator.formula_facts;
    let known = match facts {
        Some(facts) => by_id(facts.factors, facts.factors.len()),
        None => Seq::empty(),
    };
    if known.len() > 0 {
        known
    } else {
        let root = match facts {
            Some(facts) => facts.root_expr,
            None => None,
        };
        seq![
            FormulaFactorView {
                id: match root {
                    Some(root) => root.id,
                    None => stable_hash_spec(seq!["synthetic-div-factor"@, text, function]),
                },
                name: match root {
                    Some(root) => root.debug,
                    None => text,
                },
                tags: TagSet::empty_spec(),
                roles: RoleSet { div_rhs: true, ..RoleSet::empty_spec() },
                strict_positive: denominator.interval.positive_spec(),
                source_locs: seq![loc],
                proof_mode: if root is Some {
                    ProofMode::Abstract
                } else {
                    ProofMode::Heuristic
                },
            },
        ]
    }
}

fn known_factors(facts: &Option<FormulaFacts>) -> (r: Vec<FormulaFactor>)
    ensures
        views(r@) == (match opt_view(*facts) {
            Some(facts) => by_id(facts.factors, facts.factors.len()),
            None => Seq::<FormulaFactorView>::empty(),
        }),
{
    let mut r: Vec<FormulaFactor> = Vec::new();
    assert(views(r@) =~= Seq::<FormulaFactorView>::empty());
    if let Some(facts) = facts {
        let mut i: usize = 0;
        while i < facts.factors.len()
            invariant
                i <= facts.factors@.len(),
                views(r@) == by_id(facts@.factors, i as nat),
            decreases facts.factors@.len() - i,
        {
            insert_by_id(&mut r, &facts.factors[i]);
            i = i + 1;
        }
    }
    r
}

pub fn denominator_factors(denominator: &ValueState, text: &str, function: &str, loc: Loc) -> (r:
    Vec<FormulaFactor>)
    ensures
        views(r@) == denominator_factors_spec(denominator@, text@, function@, loc),
{
    reveal(denominator_factors_spec);
    let known: Vec<FormulaFactor> = known_factors(&denominator.formula_facts);
    if known.len() > 0 {
        return known;
    }
    let mut id: u64 = stable_hash_of_three("synthetic-div-factor", text, function);
    let mut name: String = text.to_owned();
    let mut proof_mode: ProofMode = ProofMode::Heuristic;
    if let Some(facts) = &denominator.formula_facts {
        if let Some(root) = &facts.root_expr {
            id = root.id;
            name = root.debug.clone();
            proof_mode = ProofMode::Abstract;
        }
    }
    let mut source_locs: Vec<Loc> = Vec::new();
    source_locs.push(loc);
    assert(source_locs@ =~= seq![loc]);
    let factor = FormulaFactor {
        id,
        name,
        tags: TagSet::empty(),
        roles: RoleSet::empty().with(SemanticRole::DivRhs),
        strict_positive: denominator.interval.positive(),
        source_locs,
        proof_mode,
    };
    let mut r: Vec<FormulaFactor> = Vec::new();
    r.push(factor);
    assert(views(r@) =~= seq![factor@]);
    r
}

/// Whether every factor is known to be above zero.
pub open spec fn all_positive(factors: Seq<FormulaFactorView>) -> bool {
    forall|i: int| 0 <= i < factors.len() ==> (#[trigger] factors[i]).strict_positive
}

pub fn are_all_positive(factors: &Vec<FormulaFactor>) -> (r: bool)
    ensures
        r == all_positive(views(factors@)),
{
    let mut i: usize = 0;
    while i < factors.len()
        invariant
            i <= factors@.len(),
            forall|j: int| 0 <= j < i ==> (#[trigger] views(factors@)[j]).strict_positive,
        decreases factors@.len() - i,
    {
        if !factors[i].strict_positive {
            assert(!views(factors@)[i as int].strict_positive);
            return false;
        }
        i = i + 1;
    }
    true
}

/// Whether a denominator is a product.
pub open spec fn is_product_spec(
    facts: Option<FormulaFactsView>,
    factors: Seq<FormulaFactorView>,
) -> bool {
    factors.len() >= 2 || (facts is Some && facts->0.root_expr is Some
        && facts->0.root_expr->0.op is Mul)
}

pub fn is_product(facts: &Option<FormulaFacts>, factors: &Vec<FormulaFactor>) -> (r: bool)
    ensures
        r == is_product_spec(opt_view(*facts), views(factors@)),
{
    if factors.len() >= 2 {
        return true;
    }
    if let Some(facts) = facts {
        if let Some(root) = &facts.root_expr {
            return root.op == ExprOp::Mul;
        }
    }
    false
}

/// Whether each factor of a product in the denominator has to be proved positive by itself.
pub open spec fn needs_factor_proofs_spec(numerator: ValueStateView, mode: SecurityMathMode) -> bool {
    mode is Deep || (numerator.formula_facts is Some && (numerator.formula_facts->0.factors.len()
        > 0 || numerator.formula_facts->0.root_expr is Some))
}

pub fn needs_factor_proofs(numerator: &ValueState, mode: SecurityMathMode) -> (r: bool)
    ensures
        r == needs_factor_proofs_spec(numerator@, mode),
{
    if mode == SecurityMathMode::Deep {
        return true;
    }
    match &numerator.formula_facts {
        Some(facts) => facts.factors.len() > 0 || facts.root_expr.is_some(),
        None => false,
    }
}

/// What is not proved of a denominator: that it is not zero, or else that each factor of a
/// product is above zero.
pub open spec fn violated_obligation_spec(
    interval: Interval,
    factors: Seq<FormulaFactorView>,
    factor_proofs: bool,
) -> Option<ObligationKind> {
    if all_positive(factors) {
        None
    } else if interval.lower is None || interval.lower->0@ == 0 {
        Some(ObligationKind::NonZeroDivisor)
    } else if factor_proofs {
        Some(ObligationKind::IndependentFactorPositivity)
    } else {
        None
    }
}

pub fn violated_obligation(
    interval: &Interval,
    factors: &Vec<FormulaFactor>,
    factor_proofs: bool,
) -> (r: Option<ObligationKind>)
    ensures
        r == violated_obligation_spec(*interval, views(factors@), factor_proofs),
{
    let all_factors_positive: bool = are_all_positive(factors);
    let zero_reachable: bool = if all_factors_positive {
        false
    } else {
        match interval.lower {
            Some(lower) => {
                proof {
                    if lower@ == 0 {
                        lemma_u256_injective(lower, U256::zero_spec());
                    }
                }
                lower == U256::zero()
            },
            None => true,
        }
    };
    if zero_reachable {
        Some(ObligationKind::NonZeroDivisor)
    } else if factor_proofs && !all_factors_positive {
        Some(ObligationKind::IndependentFactorPositivity)
    } else {
        None
    }
}

/// Whether a denominator is a product of prices, as in concentrated-liquidity formulas.
pub open spec fn is_clmm_spec(facts: Option<FormulaFactsView>) -> bool {
    facts is Some && (facts->0.tags.price_product || facts->0.tags.clmm_denominator)
}

pub fn is_clmm(facts: &Option<FormulaFacts>) -> (r: bool)
    ensures
        r == is_clmm_spec(opt_view(*facts)),
{
    match facts {
        Some(facts) => facts.tags.price_product || facts.tags.clmm_denominator,
        None => false,
    }
}

/// The title of a finding about a denominator.
pub open spec fn denominator_title_spec(obligation: ObligationKind, clmm: bool) -> Seq<char> {
    match obligation {
        ObligationKind::NonZeroDivisor => if clmm {
            "CLMM denominator may be zero on a reachable value-bearing path"@
        } else {
            "Denominator may be zero on a reachable value-bearing path"@
        },
        ObligationKind::IndependentFactorPositivity =>
            "Denominator factors are not all independently proven positive"@,
        _ => "Potential denominator obligation failure"@,
    }
}

pub fn denominator_title(obligation: ObligationKind, clmm: bool) -> (r: String)
    ensures
        r@ == denominator_title_spec(obligation, clmm),
{
    match obligation {
        ObligationKind::NonZeroDivisor => if clmm {
            "CLMM denominator may be zero on a reachable value-bearing path".to_owned()
        } else {
            "Denominator may be zero on a reachable value-bearing path".to_owned()
        },
        ObligationKind::IndependentFactorPositivity => {
            "Denominator factors are not all independently proven positive".to_owned()
        },
        _ => "Potential denominator obligation failure".to_owned(),
    }
}

/// The conditions that the factors, under these labels, are above zero.
pub open spec fn positivity_spec(labels: Seq<Seq<char>>) -> Seq<char> {
    joined(Seq::new(labels.len(), |i: int| labels[i] + " > 0"@), " && "@)
}

pub fn positivity(labels: &Vec<String>) -> (r: String)
    ensures
        r@ == positivity_spec(views(labels@)),
{
    let ghost wanted = Seq::new(labels@.len(), |i: int| views(labels@)[i] + " > 0"@);
    let mut parts: Vec<String> = Vec::new();
    let mut i: usize = 0;
    while i < labels.len()
        invariant
            i <= labels@.len(),
            wanted == Seq::new(labels@.len(), |i: int| views(labels@)[i] + " > 0"@),
            views(parts@) =~= wanted.take(i as int),
        decreases labels@.len() - i,
    {
        let ghost start = parts@;
        let mut part: String = labels[i].clone();
        part.append(" > 0");
        parts.push(part);
        assert(views(parts@) =~= views(start).push(part@));
        i = i + 1;
    }
    assert(wanted.take(i as int) =~= wanted);
    assert(views(labels@).len() == labels@.len());
    join(&parts, " && ")
}

/// What could not be proved of a denominator, as messages show it.
pub open spec fn denominator_condition_spec(
    obligation: ObligationKind,
    clmm: bool,
    text: Seq<char>,
    labels: Seq<Seq<char>>,
) -> Seq<char> {
    match obligation {
        ObligationKind::NonZeroDivisor => if clmm {
            positivity_spec(labels)
        } else {
            text + " != 0"@
        },
        ObligationKind::IndependentFactorPositivity => positivity_spec(labels),
        _ => "denominator obligations hold"@,
    }
}

pub fn denominator_condition(
    obligation: ObligationKind,
    clmm: bool,
    text: &str,
    labels: &Vec<String>,
) -> (r: String)
    ensures
        r@ == denominator_condition_spec(obligation, clmm, text@, views(labels@)),
{
    match obligation {
        ObligationKind::NonZeroDivisor => if clmm {
            positivity(labels)
        } else {
            let mut r: String = text.to_owned();
            r.append(" != 0");
            r
        },
        ObligationKind::IndependentFactorPositivity => positivity(labels),
        _ => "denominator obligations hold".to_owned(),
    }
}

/// A denominator is reported exactly where it may be zero or, as far as each factor has to be
/// proved by itself, a factor may be zero; where all factors are known to be positive it never is.
pub proof fn denominator_reports_are_exact(
    interval: Interval,
    factors: Seq<FormulaFactorView>,
    factor_proofs: bool,
)
    ensures
        all_positive(factors) ==> violated_obligation_spec(interval, factors, factor_proofs)
            is None,
        !all_positive(factors) && !interval.positive_spec() ==> violated_obligation_spec(
            interval,
            factors,
            factor_proofs,
        ) == Some(ObligationKind::NonZeroDivisor),
        !all_positive(factors) && interval.positive_spec() && factor_proofs
            ==> violated_obligation_spec(interval, factors, factor_proofs) == Some(
            ObligationKind::IndependentFactorPositivity,
        ),
        interval.positive_spec() && !factor_proofs ==> violated_obligation_spec(
            interval,
            factors,
            factor_proofs,
        ) is None,
{
}

} // verus!
